//! The sixteen flag bits of a header.
//!
//! From the most significant bit: QR (1 bit), OPCODE (4), AA, TC, RD, RA
//! (1 each), Z (3, always zero), RCODE (4).

use vstd::prelude::*;
use vstd::std_specs::convert::{FromSpecImpl, TryFromSpecImpl};
use crate::packet::seder::big_endian::be_bytes;
use crate::packet::seder::serializer::{Serialize, WireState};
use crate::packet::seder::ToBytes;

verus! {

/// The bit that tells a response from a query.
pub const QR_MASK: u16 = 0x8000;

/// The four bits of the opcode.
pub const OPCODE_MASK: u16 = 0x7800;

/// The bit of the authoritative-answer flag.
pub const AA_MASK: u16 = 0x0400;

/// The bit of the truncation flag.
pub const TC_MASK: u16 = 0x0200;

/// The bit of the recursion-desired flag.
pub const RD_MASK: u16 = 0x0100;

/// The bit of the recursion-available flag.
pub const RA_MASK: u16 = 0x0080;

/// The three reserved bits.
pub const ZERO_MASK: u16 = 0x0070;

/// The four bits of the response code.
pub const RC_MASK: u16 = 0x000F;

/// Why a flags word is refused.
#[derive(Debug, PartialEq, Eq, Clone, Copy, Structural)]
pub enum HeaderFlagError {
    /// The opcode is none of query, inverse query and status.
    MalformedOpcode,
    /// The response code is above 5.
    MalformedRcode,
    /// One of the three reserved bits is set.
    ZeroFlagUnset,
    /// A query says that recursion is available.
    QueryWithRABitSet,
    /// A query says that its answer is authoritative.
    QueryWithAABitSet,
    /// A query says that it was truncated.
    QueryWithTCBitSet,
}

/// Whether a message asks or answers.
#[derive(Debug, PartialEq, Eq, Clone, Copy, Structural)]
pub enum QR {
    Query,
    Response,
}

/// The kind of query.
#[derive(Debug, PartialEq, Eq, Clone, Copy, Structural)]
pub enum Opcode {
    Query,
    Iquery,
    Status,
}

/// How a query fared.
#[derive(Debug, PartialEq, Eq, Clone, Copy, Structural)]
pub enum Rcode {
    NoError,
    FormatError,
    ServerFailure,
    NameError,
    NotImplemented,
    Refused,
}

/// The flags of a header.
#[derive(Debug, PartialEq, Eq, Clone, Copy, Structural)]
pub struct HeaderFlags {
    pub query_or_response: QR,
    pub opcode: Opcode,
    pub authoritative_answer: bool,
    pub truncation: bool,
    pub recursion_desired: bool,
    pub recursion_available: bool,
    pub response_code: Rcode,
}

impl Default for QR {
    fn default() -> (qr: Self)
        ensures
            qr == QR::Query,
    {
        QR::Query
    }
}

impl Default for Opcode {
    fn default() -> (opcode: Self)
        ensures
            opcode == Opcode::Query,
    {
        Opcode::Query
    }
}

impl Default for Rcode {
    fn default() -> (rcode: Self)
        ensures
            rcode == Rcode::NoError,
    {
        Rcode::NoError
    }
}

impl Default for HeaderFlags {
    /// The flags of a standard query that does not ask for recursion.
    fn default() -> (flags: Self)
        ensures
            flags == (HeaderFlags {
                query_or_response: QR::Query,
                opcode: Opcode::Query,
                authoritative_answer: false,
                truncation: false,
                recursion_desired: false,
                recursion_available: false,
                response_code: Rcode::NoError,
            }),
    {
        HeaderFlags {
            query_or_response: QR::Query,
            opcode: Opcode::Query,
            authoritative_answer: false,
            truncation: false,
            recursion_desired: false,
            recursion_available: false,
            response_code: Rcode::NoError,
        }
    }
}

/// The opcode that a number stands for.
pub open spec fn opcode_of(value: u16) -> Result<Opcode, HeaderFlagError> {
    if value == 0 {
        Ok(Opcode::Query)
    } else if value == 1 {
        Ok(Opcode::Iquery)
    } else if value == 2 {
        Ok(Opcode::Status)
    } else {
        Err(HeaderFlagError::MalformedOpcode)
    }
}

/// The number that stands for an opcode.
pub open spec fn opcode_code(opcode: Opcode) -> u16 {
    match opcode {
        Opcode::Query => 0,
        Opcode::Iquery => 1,
        Opcode::Status => 2,
    }
}

/// The response code that a number stands for.
pub open spec fn rcode_of(value: u16) -> Result<Rcode, HeaderFlagError> {
    if value == 0 {
        Ok(Rcode::NoError)
    } else if value == 1 {
        Ok(Rcode::FormatError)
    } else if value == 2 {
        Ok(Rcode::ServerFailure)
    } else if value == 3 {
        Ok(Rcode::NameError)
    } else if value == 4 {
        Ok(Rcode::NotImplemented)
    } else if value == 5 {
        Ok(Rcode::Refused)
    } else {
        Err(HeaderFlagError::MalformedRcode)
    }
}

/// The number that stands for a response code.
pub open spec fn rcode_code(rcode: Rcode) -> u16 {
    match rcode {
        Rcode::NoError => 0,
        Rcode::FormatError => 1,
        Rcode::ServerFailure => 2,
        Rcode::NameError => 3,
        Rcode::NotImplemented => 4,
        Rcode::Refused => 5,
    }
}

/// The flags that a word holds, or the first reason to refuse it: the
/// opcode, the response code, the reserved bits, then what a query may not
/// claim.
pub open spec fn decode_flags(word: u16) -> Result<HeaderFlags, HeaderFlagError> {
    let response = word & QR_MASK != 0;
    let authoritative_answer = word & AA_MASK != 0;
    let truncation = word & TC_MASK != 0;
    let recursion_desired = word & RD_MASK != 0;
    let recursion_available = word & RA_MASK != 0;
    match opcode_of((word & OPCODE_MASK) >> 11) {
        Err(e) => Err(e),
        Ok(opcode) => match rcode_of(word & RC_MASK) {
            Err(e) => Err(e),
            Ok(response_code) => {
                if word & ZERO_MASK != 0 {
                    Err(HeaderFlagError::ZeroFlagUnset)
                } else if !response && recursion_available {
                    Err(HeaderFlagError::QueryWithRABitSet)
                } else if !response && authoritative_answer {
                    Err(HeaderFlagError::QueryWithAABitSet)
                } else if !response && truncation {
                    Err(HeaderFlagError::QueryWithTCBitSet)
                } else {
                    Ok(
                        HeaderFlags {
                            query_or_response: if response {
                                QR::Response
                            } else {
                                QR::Query
                            },
                            opcode,
                            authoritative_answer,
                            truncation,
                            recursion_desired,
                            recursion_available,
                            response_code,
                        },
                    )
                }
            },
        },
    }
}

/// `mask` where `set` holds, no bit where it does not.
pub open spec fn bit_if(set: bool, mask: u16) -> u16 {
    if set {
        mask
    } else {
        0
    }
}

/// The word that holds the flags.
pub open spec fn encode_flags(flags: HeaderFlags) -> u16 {
    bit_if(flags.query_or_response == QR::Response, QR_MASK) | (opcode_code(flags.opcode) << 11)
        | bit_if(flags.authoritative_answer, AA_MASK) | bit_if(flags.truncation, TC_MASK) | bit_if(
        flags.recursion_desired,
        RD_MASK,
    ) | bit_if(flags.recursion_available, RA_MASK) | rcode_code(flags.response_code)
}

/// Flags that a word may hold: a query claims neither an authoritative
/// answer, nor a truncation, nor that recursion is available.
pub open spec fn valid_flags(flags: HeaderFlags) -> bool {
    flags.query_or_response == QR::Query ==> !flags.authoritative_answer && !flags.truncation
        && !flags.recursion_available
}

/// Flags that are read come out valid.
pub proof fn lemma_decoded_flags_are_valid(word: u16)
    ensures
        decode_flags(word) matches Ok(flags) ==> valid_flags(flags),
{
}

/// The word that holds valid flags reads back as those flags.
pub proof fn lemma_flags_round_trip(flags: HeaderFlags)
    requires
        valid_flags(flags),
    ensures
        decode_flags(encode_flags(flags)) == Ok::<HeaderFlags, HeaderFlagError>(flags),
{
    let qr = bit_if(flags.query_or_response == QR::Response, QR_MASK);
    let opcode = opcode_code(flags.opcode);
    let aa = bit_if(flags.authoritative_answer, AA_MASK);
    let tc = bit_if(flags.truncation, TC_MASK);
    let rd = bit_if(flags.recursion_desired, RD_MASK);
    let ra = bit_if(flags.recursion_available, RA_MASK);
    let rcode = rcode_code(flags.response_code);
    let word = encode_flags(flags);
    assert(word & 0x8000 == qr && (word & 0x7800) >> 11 == opcode && word & 0x0400 == aa && word
        & 0x0200 == tc && word & 0x0100 == rd && word & 0x0080 == ra && word & 0x0070 == 0 && word
        & 0x000F == rcode) by (bit_vector)
        requires
            word == qr | (opcode << 11) | aa | tc | rd | ra | rcode,
            qr == 0 || qr == 0x8000,
            opcode <= 2,
            aa == 0 || aa == 0x0400,
            tc == 0 || tc == 0x0200,
            rd == 0 || rd == 0x0100,
            ra == 0 || ra == 0x0080,
            rcode <= 5,
    ;
}

/// A word that is accepted is the word that holds the flags read from it.
pub proof fn lemma_word_round_trip(word: u16)
    ensures
        decode_flags(word) matches Ok(flags) ==> encode_flags(flags) == word,
{
    if let Ok(flags) = decode_flags(word) {
        let opcode = (word & 0x7800) >> 11;
        let rcode = word & 0x000F;
        assert(opcode == opcode_code(flags.opcode));
        assert(rcode == rcode_code(flags.response_code));
        assert((word & 0x8000 == 0 || word & 0x8000 == 0x8000) && (word & 0x0400 == 0 || word
            & 0x0400 == 0x0400) && (word & 0x0200 == 0 || word & 0x0200 == 0x0200) && (word & 0x0100
            == 0 || word & 0x0100 == 0x0100) && (word & 0x0080 == 0 || word & 0x0080 == 0x0080))
            by (bit_vector);
        assert(word == (word & 0x8000) | (opcode << 11) | (word & 0x0400) | (word & 0x0200) | (word
            & 0x0100) | (word & 0x0080) | rcode) by (bit_vector)
            requires
                opcode == (word & 0x7800) >> 11,
                rcode == word & 0x000F,
                word & 0x0070 == 0,
        ;
    }
}

impl TryFrom<u16> for Opcode {
    type Error = HeaderFlagError;

    fn try_from(value: u16) -> (result: Result<Self, Self::Error>) {
        match value {
            0 => Ok(Opcode::Query),
            1 => Ok(Opcode::Iquery),
            2 => Ok(Opcode::Status),
            _ => Err(HeaderFlagError::MalformedOpcode),
        }
    }
}

impl TryFromSpecImpl<u16> for Opcode {
    open spec fn obeys_try_from_spec() -> bool {
        true
    }

    open spec fn try_from_spec(value: u16) -> Result<Self, Self::Error> {
        opcode_of(value)
    }
}

impl TryFrom<u16> for Rcode {
    type Error = HeaderFlagError;

    fn try_from(value: u16) -> (result: Result<Self, Self::Error>) {
        match value {
            0 => Ok(Rcode::NoError),
            1 => Ok(Rcode::FormatError),
            2 => Ok(Rcode::ServerFailure),
            3 => Ok(Rcode::NameError),
            4 => Ok(Rcode::NotImplemented),
            5 => Ok(Rcode::Refused),
            _ => Err(HeaderFlagError::MalformedRcode),
        }
    }
}

impl TryFromSpecImpl<u16> for Rcode {
    open spec fn obeys_try_from_spec() -> bool {
        true
    }

    open spec fn try_from_spec(value: u16) -> Result<Self, Self::Error> {
        rcode_of(value)
    }
}

impl From<bool> for QR {
    fn from(value: bool) -> (qr: Self) {
        match value {
            true => QR::Response,
            false => QR::Query,
        }
    }
}

impl FromSpecImpl<bool> for QR {
    open spec fn obeys_from_spec() -> bool {
        true
    }

    open spec fn from_spec(value: bool) -> Self {
        if value {
            QR::Response
        } else {
            QR::Query
        }
    }
}

impl TryFrom<u16> for HeaderFlags {
    type Error = HeaderFlagError;

    fn try_from(value: u16) -> (result: Result<Self, Self::Error>) {
        let query_or_response = QR::from((value & QR_MASK) != 0);
        let opcode = match Opcode::try_from((value & OPCODE_MASK) >> 11) {
            Ok(opcode) => opcode,
            Err(e) => {
                return Err(e);
            },
        };
        let authoritative_answer = (value & AA_MASK) != 0;
        let truncation = (value & TC_MASK) != 0;
        let recursion_desired = (value & RD_MASK) != 0;
        let recursion_available = (value & RA_MASK) != 0;
        let zero = value & ZERO_MASK;
        let response_code = match Rcode::try_from(value & RC_MASK) {
            Ok(response_code) => response_code,
            Err(e) => {
                return Err(e);
            },
        };
        if zero != 0 {
            return Err(HeaderFlagError::ZeroFlagUnset);
        }
        if query_or_response == QR::Query && recursion_available {
            return Err(HeaderFlagError::QueryWithRABitSet);
        }
        if query_or_response == QR::Query && authoritative_answer {
            return Err(HeaderFlagError::QueryWithAABitSet);
        }
        if query_or_response == QR::Query && truncation {
            return Err(HeaderFlagError::QueryWithTCBitSet);
        }
        Ok(
            HeaderFlags {
                query_or_response,
                opcode,
                authoritative_answer,
                truncation,
                recursion_desired,
                recursion_available,
                response_code,
            },
        )
    }
}

impl TryFromSpecImpl<u16> for HeaderFlags {
    open spec fn obeys_try_from_spec() -> bool {
        true
    }

    open spec fn try_from_spec(value: u16) -> Result<Self, Self::Error> {
        decode_flags(value)
    }
}

impl ToBytes for HeaderFlags {
    open spec fn written(&self, state: WireState) -> WireState {
        state.write(be_bytes(encode_flags(*self) as nat, 2))
    }

    /// Writes the flags as one word.
    fn to_bytes(&self, encoder: &mut Serialize)
    {
        encoder.write_u16(self.to_word());
    }
}

impl HeaderFlags {
    /// A builder that holds nothing: every field is still to be given.
    pub fn builder() -> (builder: HeaderFlagsBuilderUnset)
        ensures
            builder == (HeaderFlagsBuilder {
                query_or_response: QrUnset,
                opcode: OpcodeUnset,
                authoritative_answer: AaUnset,
                truncation: TcUnset,
                recursion_desired: RdUnset,
                recursion_available: RaUnset,
                response_code: RcodeUnset,
            }),
    {
        HeaderFlagsBuilder::new()
    }

    /// Says whether the message was truncated.
    pub fn truncation(&mut self, tc: bool)
        ensures
            *final(self) == (HeaderFlags { truncation: tc, ..*old(self) }),
    {
        self.truncation = tc
    }

    /// The flags as one word.
    pub fn to_word(&self) -> (word: u16)
        ensures
            word == encode_flags(*self),
    {
        let qr: u16 = match self.query_or_response {
            QR::Query => 0,
            QR::Response => QR_MASK,
        };
        let opcode: u16 = match self.opcode {
            Opcode::Query => 0,
            Opcode::Iquery => 1,
            Opcode::Status => 2,
        };
        let aa: u16 = if self.authoritative_answer {
            AA_MASK
        } else {
            0
        };
        let tc: u16 = if self.truncation {
            TC_MASK
        } else {
            0
        };
        let rd: u16 = if self.recursion_desired {
            RD_MASK
        } else {
            0
        };
        let ra: u16 = if self.recursion_available {
            RA_MASK
        } else {
            0
        };
        let rcode: u16 = match self.response_code {
            Rcode::NoError => 0,
            Rcode::FormatError => 1,
            Rcode::ServerFailure => 2,
            Rcode::NameError => 3,
            Rcode::NotImplemented => 4,
            Rcode::Refused => 5,
        };
        qr | (opcode << 11) | aa | tc | rd | ra | rcode
    }


    pub fn query_or_response(&self) -> (qr: &QR)
        ensures
            *qr == self.query_or_response,
    {
        &self.query_or_response
    }

    pub fn opcode(&self) -> (opcode: &Opcode)
        ensures
            *opcode == self.opcode,
    {
        &self.opcode
    }

    pub fn authoritative_answer(&self) -> (aa: bool)
        ensures
            aa == self.authoritative_answer,
    {
        self.authoritative_answer
    }

    pub fn recursion_desired(&self) -> (rd: bool)
        ensures
            rd == self.recursion_desired,
    {
        self.recursion_desired
    }

    pub fn recursion_available(&self) -> (ra: bool)
        ensures
            ra == self.recursion_available,
    {
        self.recursion_available
    }

    pub fn response_code(&self) -> (rcode: &Rcode)
        ensures
            *rcode == self.response_code,
    {
        &self.response_code
    }
}

/// The state of a builder that does not hold whether the message asks or answers yet.
#[derive(Debug, Clone, Copy)]
pub struct QrUnset;

/// The state of a builder that holds whether the message asks or answers.
#[derive(Debug, Clone, Copy)]
pub struct QrSet(pub QR);

/// Whether a [`HeaderFlagsBuilder`] holds whether the message asks or answers.
pub trait QrState {

}

impl QrState for QrUnset {

}

impl QrState for QrSet {

}

/// The state of a builder that does not hold the opcode yet.
#[derive(Debug, Clone, Copy)]
pub struct OpcodeUnset;

/// The state of a builder that holds the opcode.
#[derive(Debug, Clone, Copy)]
pub struct OpcodeSet(pub Opcode);

/// Whether a [`HeaderFlagsBuilder`] holds the opcode.
pub trait OpcodeState {

}

impl OpcodeState for OpcodeUnset {

}

impl OpcodeState for OpcodeSet {

}

/// The state of a builder that does not hold the authoritative-answer flag yet.
#[derive(Debug, Clone, Copy)]
pub struct AaUnset;

/// The state of a builder that holds the authoritative-answer flag.
#[derive(Debug, Clone, Copy)]
pub struct AaSet(pub bool);

/// Whether a [`HeaderFlagsBuilder`] holds the authoritative-answer flag.
pub trait AaState {

}

impl AaState for AaUnset {

}

impl AaState for AaSet {

}

/// The state of a builder that does not hold the truncation flag yet.
#[derive(Debug, Clone, Copy)]
pub struct TcUnset;

/// The state of a builder that holds the truncation flag.
#[derive(Debug, Clone, Copy)]
pub struct TcSet(pub bool);

/// Whether a [`HeaderFlagsBuilder`] holds the truncation flag.
pub trait TcState {

}

impl TcState for TcUnset {

}

impl TcState for TcSet {

}

/// The state of a builder that does not hold the recursion-desired flag yet.
#[derive(Debug, Clone, Copy)]
pub struct RdUnset;

/// The state of a builder that holds the recursion-desired flag.
#[derive(Debug, Clone, Copy)]
pub struct RdSet(pub bool);

/// Whether a [`HeaderFlagsBuilder`] holds the recursion-desired flag.
pub trait RdState {

}

impl RdState for RdUnset {

}

impl RdState for RdSet {

}

/// The state of a builder that does not hold the recursion-available flag yet.
#[derive(Debug, Clone, Copy)]
pub struct RaUnset;

/// The state of a builder that holds the recursion-available flag.
#[derive(Debug, Clone, Copy)]
pub struct RaSet(pub bool);

/// Whether a [`HeaderFlagsBuilder`] holds the recursion-available flag.
pub trait RaState {

}

impl RaState for RaUnset {

}

impl RaState for RaSet {

}

/// The state of a builder that does not hold the response code yet.
#[derive(Debug, Clone, Copy)]
pub struct RcodeUnset;

/// The state of a builder that holds the response code.
#[derive(Debug, Clone, Copy)]
pub struct RcodeSet(pub Rcode);

/// Whether a [`HeaderFlagsBuilder`] holds the response code.
pub trait RcodeState {

}

impl RcodeState for RcodeUnset {

}

impl RcodeState for RcodeSet {

}

/// Builds the flags, field by field in their order on the wire; or, for a
/// query, from the recursion-desired flag alone.
#[derive(Debug, Clone, Copy)]
pub struct HeaderFlagsBuilder<
    Q: QrState,
    O: OpcodeState,
    A: AaState,
    T: TcState,
    RD: RdState,
    RA: RaState,
    RC: RcodeState,
> {
    pub query_or_response: Q,
    pub opcode: O,
    pub authoritative_answer: A,
    pub truncation: T,
    pub recursion_desired: RD,
    pub recursion_available: RA,
    pub response_code: RC,
}

pub type HeaderFlagsBuilderUnset = HeaderFlagsBuilder<QrUnset, OpcodeUnset, AaUnset, TcUnset, RdUnset, RaUnset, RcodeUnset>;

pub type HeaderFlagsBuilderQrSet = HeaderFlagsBuilder<QrSet, OpcodeUnset, AaUnset, TcUnset, RdUnset, RaUnset, RcodeUnset>;

pub type HeaderFlagsBuilderOpcodeSet = HeaderFlagsBuilder<QrSet, OpcodeSet, AaUnset, TcUnset, RdUnset, RaUnset, RcodeUnset>;

pub type HeaderFlagsBuilderAaSet = HeaderFlagsBuilder<QrSet, OpcodeSet, AaSet, TcUnset, RdUnset, RaUnset, RcodeUnset>;

pub type HeaderFlagsBuilderTcSet = HeaderFlagsBuilder<QrSet, OpcodeSet, AaSet, TcSet, RdUnset, RaUnset, RcodeUnset>;

pub type HeaderFlagsBuilderRdSet = HeaderFlagsBuilder<QrSet, OpcodeSet, AaSet, TcSet, RdSet, RaUnset, RcodeUnset>;

pub type HeaderFlagsBuilderRaSet = HeaderFlagsBuilder<QrSet, OpcodeSet, AaSet, TcSet, RdSet, RaSet, RcodeUnset>;

pub type HeaderFlagsBuilderSet = HeaderFlagsBuilder<QrSet, OpcodeSet, AaSet, TcSet, RdSet, RaSet, RcodeSet>;

/// A builder for the flags of a query, which lacks the recursion-desired
/// flag alone.
pub type HeaderFlagsBuildingQuery = HeaderFlagsBuilder<QrSet, OpcodeSet, AaSet, TcSet, RdUnset, RaSet, RcodeSet>;

impl Default for HeaderFlagsBuilderUnset {
    /// A builder that holds nothing: every field is still to be given.
    fn default() -> (builder: Self)
        ensures
            builder == (HeaderFlagsBuilder {
                query_or_response: QrUnset,
                opcode: OpcodeUnset,
                authoritative_answer: AaUnset,
                truncation: TcUnset,
                recursion_desired: RdUnset,
                recursion_available: RaUnset,
                response_code: RcodeUnset,
            }),
    {
        HeaderFlagsBuilder {
            query_or_response: QrUnset,
            opcode: OpcodeUnset,
            authoritative_answer: AaUnset,
            truncation: TcUnset,
            recursion_desired: RdUnset,
            recursion_available: RaUnset,
            response_code: RcodeUnset,
        }
    }
}

impl HeaderFlagsBuilderUnset {
    /// A builder that holds nothing: every field is still to be given.
    pub fn new() -> (builder: Self)
        ensures
            builder == (HeaderFlagsBuilder {
                query_or_response: QrUnset,
                opcode: OpcodeUnset,
                authoritative_answer: AaUnset,
                truncation: TcUnset,
                recursion_desired: RdUnset,
                recursion_available: RaUnset,
                response_code: RcodeUnset,
            }),
    {
        HeaderFlagsBuilder::default()
    }

    /// The flags of a standard query without an error, all but the
    /// recursion-desired flag.
    pub fn query(self) -> (builder: HeaderFlagsBuildingQuery)
        ensures
            builder.query_or_response.0 == QR::Query,
            builder.opcode.0 == Opcode::Query,
            builder.authoritative_answer.0 == false,
            builder.truncation.0 == false,
            builder.recursion_available.0 == false,
            builder.response_code.0 == Rcode::NoError,
    {
        HeaderFlagsBuilder {
            query_or_response: QrSet(QR::Query),
            opcode: OpcodeSet(Opcode::Query),
            authoritative_answer: AaSet(false),
            truncation: TcSet(false),
            recursion_desired: self.recursion_desired,
            recursion_available: RaSet(false),
            response_code: RcodeSet(Rcode::NoError),
        }
    }

    pub fn query_or_response(self, qr: QR) -> (builder: HeaderFlagsBuilderQrSet)
        ensures
            builder.query_or_response.0 == qr,
    {
        HeaderFlagsBuilder {
            query_or_response: QrSet(qr),
            opcode: self.opcode,
            authoritative_answer: self.authoritative_answer,
            truncation: self.truncation,
            recursion_desired: self.recursion_desired,
            recursion_available: self.recursion_available,
            response_code: self.response_code,
        }
    }
}

impl HeaderFlagsBuildingQuery {
    pub fn recursion_desired(self, rd: bool) -> (builder: HeaderFlagsBuilderSet)
        ensures
            builder.query_or_response == self.query_or_response,
            builder.opcode == self.opcode,
            builder.authoritative_answer == self.authoritative_answer,
            builder.truncation == self.truncation,
            builder.recursion_desired.0 == rd,
            builder.recursion_available == self.recursion_available,
            builder.response_code == self.response_code,
    {
        HeaderFlagsBuilder {
            query_or_response: self.query_or_response,
            opcode: self.opcode,
            authoritative_answer: self.authoritative_answer,
            truncation: self.truncation,
            recursion_desired: RdSet(rd),
            recursion_available: self.recursion_available,
            response_code: self.response_code,
        }
    }
}

impl HeaderFlagsBuilderQrSet {
    pub fn opcode(self, opcode: Opcode) -> (builder: HeaderFlagsBuilderOpcodeSet)
        ensures
            builder.query_or_response == self.query_or_response,
            builder.opcode.0 == opcode,
    {
        HeaderFlagsBuilder {
            query_or_response: self.query_or_response,
            opcode: OpcodeSet(opcode),
            authoritative_answer: self.authoritative_answer,
            truncation: self.truncation,
            recursion_desired: self.recursion_desired,
            recursion_available: self.recursion_available,
            response_code: self.response_code,
        }
    }
}

impl HeaderFlagsBuilderOpcodeSet {
    pub fn authoritative_answer(self, authoritative_answer: bool) -> (builder: HeaderFlagsBuilderAaSet)
        ensures
            builder.query_or_response == self.query_or_response,
            builder.opcode == self.opcode,
            builder.authoritative_answer.0 == authoritative_answer,
    {
        HeaderFlagsBuilder {
            query_or_response: self.query_or_response,
            opcode: self.opcode,
            authoritative_answer: AaSet(authoritative_answer),
            truncation: self.truncation,
            recursion_desired: self.recursion_desired,
            recursion_available: self.recursion_available,
            response_code: self.response_code,
        }
    }
}

impl HeaderFlagsBuilderAaSet {
    pub fn truncation(self, truncation: bool) -> (builder: HeaderFlagsBuilderTcSet)
        ensures
            builder.query_or_response == self.query_or_response,
            builder.opcode == self.opcode,
            builder.authoritative_answer == self.authoritative_answer,
            builder.truncation.0 == truncation,
    {
        HeaderFlagsBuilder {
            query_or_response: self.query_or_response,
            opcode: self.opcode,
            authoritative_answer: self.authoritative_answer,
            truncation: TcSet(truncation),
            recursion_desired: self.recursion_desired,
            recursion_available: self.recursion_available,
            response_code: self.response_code,
        }
    }
}

impl HeaderFlagsBuilderTcSet {
    pub fn recursion_desired(self, recursion_desired: bool) -> (builder: HeaderFlagsBuilderRdSet)
        ensures
            builder.query_or_response == self.query_or_response,
            builder.opcode == self.opcode,
            builder.authoritative_answer == self.authoritative_answer,
            builder.truncation == self.truncation,
            builder.recursion_desired.0 == recursion_desired,
    {
        HeaderFlagsBuilder {
            query_or_response: self.query_or_response,
            opcode: self.opcode,
            authoritative_answer: self.authoritative_answer,
            truncation: self.truncation,
            recursion_desired: RdSet(recursion_desired),
            recursion_available: self.recursion_available,
            response_code: self.response_code,
        }
    }
}

impl HeaderFlagsBuilderRdSet {
    pub fn recursion_available(self, recursion_available: bool) -> (builder: HeaderFlagsBuilderRaSet)
        ensures
            builder.query_or_response == self.query_or_response,
            builder.opcode == self.opcode,
            builder.authoritative_answer == self.authoritative_answer,
            builder.truncation == self.truncation,
            builder.recursion_desired == self.recursion_desired,
            builder.recursion_available.0 == recursion_available,
    {
        HeaderFlagsBuilder {
            query_or_response: self.query_or_response,
            opcode: self.opcode,
            authoritative_answer: self.authoritative_answer,
            truncation: self.truncation,
            recursion_desired: self.recursion_desired,
            recursion_available: RaSet(recursion_available),
            response_code: self.response_code,
        }
    }
}

impl HeaderFlagsBuilderRaSet {
    pub fn response_code(self, response_code: Rcode) -> (builder: HeaderFlagsBuilderSet)
        ensures
            builder.query_or_response == self.query_or_response,
            builder.opcode == self.opcode,
            builder.authoritative_answer == self.authoritative_answer,
            builder.truncation == self.truncation,
            builder.recursion_desired == self.recursion_desired,
            builder.recursion_available == self.recursion_available,
            builder.response_code.0 == response_code,
    {
        HeaderFlagsBuilder {
            query_or_response: self.query_or_response,
            opcode: self.opcode,
            authoritative_answer: self.authoritative_answer,
            truncation: self.truncation,
            recursion_desired: self.recursion_desired,
            recursion_available: self.recursion_available,
            response_code: RcodeSet(response_code),
        }
    }
}

impl HeaderFlagsBuilderSet {
    /// The flags that the builder holds.
    pub fn build(self) -> (flags: HeaderFlags)
        ensures
            flags == (HeaderFlags {
                query_or_response: self.query_or_response.0,
                opcode: self.opcode.0,
                authoritative_answer: self.authoritative_answer.0,
                truncation: self.truncation.0,
                recursion_desired: self.recursion_desired.0,
                recursion_available: self.recursion_available.0,
                response_code: self.response_code.0,
            }),
    {
        HeaderFlags {
            query_or_response: self.query_or_response.0,
            opcode: self.opcode.0,
            authoritative_answer: self.authoritative_answer.0,
            truncation: self.truncation.0,
            recursion_desired: self.recursion_desired.0,
            recursion_available: self.recursion_available.0,
            response_code: self.response_code.0,
        }
    }
}

} // verus!
