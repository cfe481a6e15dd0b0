//! A prover's coinbase-puzzle solution and its two encodings.
//!
//! The mode of an encoding is always chosen by the caller and never guessed
//! from the data. The human-readable mode is an ordered list of named
//! fields; the compact mode is the canonical byte encoding behind an 8-byte
//! size prefix.

use crate::bytes::{
    append_bytes, bytes_equal, copy_bytes, le_bytes, le_value, lemma_le_bytes_len,
    lemma_le_value_of_bytes, lemma_radix_values, read_array, read_le, write_le,
};
use vstd::prelude::*;
use vstd::std_specs::cmp::PartialEqSpecImpl;

verus! {

/// Width in bytes of a prover address.
pub const ADDRESS_SIZE: usize = 32;

/// Width in bytes of a polynomial commitment.
pub const COMMITMENT_SIZE: usize = 48;

/// Width in bytes of a blinding scalar.
pub const SCALAR_SIZE: usize = 32;

/// Width in bytes of an encoded partial solution: address, nonce and
/// commitment.
pub const PARTIAL_SOLUTION_SIZE: usize = 88;

/// Width in bytes of the canonical encoding of a solution without a
/// blinding scalar; with one it is `SCALAR_SIZE` wider.
pub const UNBLINDED_SIZE: usize = 137;

/// Width in bytes of the size prefix of the compact mode.
pub const SIZE_PREFIX_SIZE: usize = 8;

/// Name of the field that holds the partial solution.
pub const PARTIAL_SOLUTION_FIELD: &'static str = "partial_solution";

/// Name of the field that holds the commitment of the proof.
pub const PROOF_W_FIELD: &'static str = "proof.w";

/// Name of the field that holds the blinding scalar of the proof, when there
/// is one.
pub const PROOF_RANDOM_V_FIELD: &'static str = "proof.random_v";

/// The two modes of encoding.
#[derive(Clone, Copy, Debug, PartialEq, Eq, Structural)]
pub enum Encoding {
    /// The canonical bytes behind a size prefix: for peers and storage.
    Compact,
    /// Named fields: for interactive and programmatic exchange.
    HumanReadable,
}

/// Why a solution could not be decoded.
#[derive(Clone, Copy, Debug, PartialEq, Eq, Structural)]
pub enum SolutionError {
    /// Fewer bytes remain than the next item's declared width.
    TruncatedInput,
    /// The byte that tells whether a blinding scalar follows is neither 0
    /// nor 1.
    MalformedOption,
    /// A required field is absent.
    MissingField,
    /// A field's value has not the width of what it holds.
    MalformedField,
    /// What is to be decoded is not in the mode that the caller chose.
    WrongEncoding,
}

/// A prover's candidate answer to the puzzle, before the proof is attached.
#[derive(Clone, Copy, Debug, Eq)]
pub struct PartialSolution {
    /// The address of the prover.
    pub address: [u8; 32],
    /// The nonce of the attempt.
    pub nonce: u64,
    /// The commitment to the solution polynomial.
    pub commitment: [u8; 48],
}

/// An evaluation proof of the commitment scheme.
#[derive(Clone, Copy, Debug, Eq)]
pub struct KZGProof {
    /// The commitment to the witness polynomial.
    pub w: [u8; 48],
    /// The blinding scalar, where the proof hides its evaluation.
    pub random_v: Option<[u8; 32]>,
}

/// A partial solution with its proof.
#[derive(Clone, Copy, Debug, Eq)]
pub struct ProverSolution {
    /// The partial solution.
    pub partial_solution: PartialSolution,
    /// The proof of the partial solution.
    pub proof: KZGProof,
}

/// One named field of the human-readable mode.
#[derive(Clone, Debug, PartialEq, Eq)]
pub struct Field {
    /// The name of the field.
    pub name: String,
    /// The canonical bytes of what the field holds.
    pub value: Vec<u8>,
}

/// An encoded solution, in one of the two modes.
#[derive(Clone, Debug, PartialEq, Eq)]
pub enum Encoded {
    /// The size-prefixed canonical bytes.
    Compact(Vec<u8>),
    /// The named fields, in order.
    HumanReadable(Vec<Field>),
}

/// What a solution is, apart from how it is held in memory.
pub struct SolutionModel {
    pub address: Seq<u8>,
    pub nonce: u64,
    pub commitment: Seq<u8>,
    pub w: Seq<u8>,
    pub random_v: Option<Seq<u8>>,
}

/// What a field is, apart from how it is held in memory.
pub struct FieldModel {
    pub name: Seq<char>,
    pub value: Seq<u8>,
}

/// What an encoded solution is, apart from how it is held in memory.
pub enum EncodedModel {
    Compact(Seq<u8>),
    HumanReadable(Seq<FieldModel>),
}

impl View for ProverSolution {
    type V = SolutionModel;

    open spec fn view(&self) -> SolutionModel {
        SolutionModel {
            address: self.partial_solution.address@,
            nonce: self.partial_solution.nonce,
            commitment: self.partial_solution.commitment@,
            w: self.proof.w@,
            random_v: match self.proof.random_v {
                Some(v) => Some(v@),
                None => None,
            },
        }
    }
}

impl PartialEq for PartialSolution {
    /// Two partial solutions are equal when all their parts are.
    fn eq(&self, other: &Self) -> (equal: bool) {
        bytes_equal(self.address.as_slice(), other.address.as_slice()) && self.nonce
            == other.nonce && bytes_equal(self.commitment.as_slice(), other.commitment.as_slice())
    }
}

impl PartialEqSpecImpl for PartialSolution {
    open spec fn obeys_eq_spec() -> bool {
        true
    }

    open spec fn eq_spec(&self, other: &Self) -> bool {
        self.address@ == other.address@ && self.nonce == other.nonce && self.commitment@
            == other.commitment@
    }
}

impl PartialEq for KZGProof {
    /// Two proofs are equal when their commitments are, and both have the
    /// same blinding scalar or both have none.
    fn eq(&self, other: &Self) -> (equal: bool) {
        bytes_equal(self.w.as_slice(), other.w.as_slice()) && match (
            &self.random_v,
            &other.random_v,
        ) {
            (Some(left), Some(right)) => bytes_equal(left.as_slice(), right.as_slice()),
            (None, None) => true,
            _ => false,
        }
    }
}

impl PartialEqSpecImpl for KZGProof {
    open spec fn obeys_eq_spec() -> bool {
        true
    }

    open spec fn eq_spec(&self, other: &Self) -> bool {
        self.w@ == other.w@ && match (self.random_v, other.random_v) {
            (Some(left), Some(right)) => left@ == right@,
            (None, None) => true,
            _ => false,
        }
    }
}

impl PartialEq for ProverSolution {
    /// Two solutions are equal when their partial solutions and their proofs
    /// are.
    fn eq(&self, other: &Self) -> (equal: bool) {
        self.partial_solution == other.partial_solution && self.proof == other.proof
    }
}

impl PartialEqSpecImpl for ProverSolution {
    open spec fn obeys_eq_spec() -> bool {
        true
    }

    open spec fn eq_spec(&self, other: &Self) -> bool {
        self@ == other@
    }
}

impl View for Field {
    type V = FieldModel;

    open spec fn view(&self) -> FieldModel {
        FieldModel { name: self.name@, value: self.value@ }
    }
}

/// The models of `fields`, in order.
pub open spec fn field_models(fields: Seq<Field>) -> Seq<FieldModel> {
    fields.map_values(|f: Field| f@)
}

impl View for Encoded {
    type V = EncodedModel;

    open spec fn view(&self) -> EncodedModel {
        match *self {
            Encoded::Compact(bytes) => EncodedModel::Compact(bytes@),
            Encoded::HumanReadable(fields) => EncodedModel::HumanReadable(field_models(fields@)),
        }
    }
}

/// A solution whose parts have their declared widths.
pub open spec fn valid_solution(solution: SolutionModel) -> bool {
    &&& solution.address.len() == 32
    &&& solution.commitment.len() == 48
    &&& solution.w.len() == 48
    &&& solution.random_v is Some ==> solution.random_v->Some_0.len() == 32
}

/// The canonical bytes of the partial solution: address, nonce
/// (little-endian, 8 bytes), commitment.
pub open spec fn partial_solution_encoding(solution: SolutionModel) -> Seq<u8> {
    solution.address + le_bytes(solution.nonce as nat, 8) + solution.commitment
}

/// The canonical bytes of an optional blinding scalar: a byte that is 0
/// when there is none, or 1 and then the scalar.
pub open spec fn option_encoding(random_v: Option<Seq<u8>>) -> Seq<u8> {
    match random_v {
        None => seq![0u8],
        Some(v) => seq![1u8] + v,
    }
}

/// The canonical bytes of a solution: the partial solution, the proof's
/// commitment, the optional blinding scalar.
pub open spec fn solution_encoding(solution: SolutionModel) -> Seq<u8> {
    partial_solution_encoding(solution) + solution.w + option_encoding(solution.random_v)
}

/// The partial solution that 88 bytes denote, with the given proof parts.
pub open spec fn solution_of_parts(
    partial: Seq<u8>,
    w: Seq<u8>,
    random_v: Option<Seq<u8>>,
) -> SolutionModel {
    SolutionModel {
        address: partial.subrange(0, 32),
        nonce: le_value(partial.subrange(32, 40)) as u64,
        commitment: partial.subrange(40, 88),
        w,
        random_v,
    }
}

/// The solution that the front of `bytes` denotes, or why there is none.
pub open spec fn solution_decoding(bytes: Seq<u8>) -> Result<SolutionModel, SolutionError> {
    if bytes.len() < 137 {
        Err(SolutionError::TruncatedInput)
    } else if bytes[136] == 0 {
        Ok(solution_of_parts(bytes.subrange(0, 88), bytes.subrange(88, 136), None))
    } else if bytes[136] != 1 {
        Err(SolutionError::MalformedOption)
    } else if bytes.len() < 169 {
        Err(SolutionError::TruncatedInput)
    } else {
        Ok(
            solution_of_parts(
                bytes.subrange(0, 88),
                bytes.subrange(88, 136),
                Some(bytes.subrange(137, 169)),
            ),
        )
    }
}

/// `bytes` behind their size prefix: their length, little-endian in 8
/// bytes, and then the bytes themselves.
pub open spec fn size_prefixed(bytes: Seq<u8>) -> Seq<u8> {
    le_bytes(bytes.len(), 8) + bytes
}

/// The bytes that a size prefix at the front of `framed` announces, or why
/// there are none.
pub open spec fn size_prefix_stripped(framed: Seq<u8>) -> Result<Seq<u8>, SolutionError> {
    if framed.len() < 8 {
        Err(SolutionError::TruncatedInput)
    } else if framed.len() - 8 < le_value(framed.subrange(0, 8)) {
        Err(SolutionError::TruncatedInput)
    } else {
        Ok(framed.subrange(8, 8 + le_value(framed.subrange(0, 8)) as int))
    }
}

/// The value of the first field of `fields` that is named `name`.
pub open spec fn field_value(fields: Seq<FieldModel>, name: Seq<char>) -> Option<Seq<u8>>
    decreases fields.len(),
{
    if fields.len() == 0 {
        None
    } else if fields[0].name == name {
        Some(fields[0].value)
    } else {
        field_value(fields.drop_first(), name)
    }
}

/// The fields of the human-readable mode: `partial_solution`, `proof.w`
/// and, only when there is a blinding scalar, `proof.random_v`.
pub open spec fn solution_fields(solution: SolutionModel) -> Seq<FieldModel> {
    let required = seq![
        FieldModel {
            name: PARTIAL_SOLUTION_FIELD@,
            value: partial_solution_encoding(solution),
        },
        FieldModel { name: PROOF_W_FIELD@, value: solution.w },
    ];
    match solution.random_v {
        None => required,
        Some(v) => required.push(FieldModel { name: PROOF_RANDOM_V_FIELD@, value: v }),
    }
}

/// The solution that named fields denote, or why there is none. An absent
/// `proof.random_v` means that there is no blinding scalar; fields of other
/// names are passed over.
pub open spec fn fields_decoding(fields: Seq<FieldModel>) -> Result<SolutionModel, SolutionError> {
    match field_value(fields, PARTIAL_SOLUTION_FIELD@) {
        None => Err(SolutionError::MissingField),
        Some(partial) => if partial.len() != 88 {
            Err(SolutionError::MalformedField)
        } else {
            match field_value(fields, PROOF_W_FIELD@) {
                None => Err(SolutionError::MissingField),
                Some(w) => if w.len() != 48 {
                    Err(SolutionError::MalformedField)
                } else {
                    match field_value(fields, PROOF_RANDOM_V_FIELD@) {
                        None => Ok(solution_of_parts(partial, w, None)),
                        Some(v) => if v.len() != 32 {
                            Err(SolutionError::MalformedField)
                        } else {
                            Ok(solution_of_parts(partial, w, Some(v)))
                        },
                    }
                },
            }
        },
    }
}

/// What encoding `solution` in `mode` gives.
pub open spec fn serialization(solution: SolutionModel, mode: Encoding) -> EncodedModel {
    match mode {
        Encoding::Compact => EncodedModel::Compact(size_prefixed(solution_encoding(solution))),
        Encoding::HumanReadable => EncodedModel::HumanReadable(solution_fields(solution)),
    }
}

/// What decoding `encoded` in `mode` gives.
pub open spec fn deserialization(mode: Encoding, encoded: EncodedModel) -> Result<
    SolutionModel,
    SolutionError,
> {
    match (mode, encoded) {
        (Encoding::Compact, EncodedModel::Compact(framed)) => match size_prefix_stripped(framed) {
            Ok(bytes) => solution_decoding(bytes),
            Err(e) => Err(e),
        },
        (Encoding::HumanReadable, EncodedModel::HumanReadable(fields)) => fields_decoding(fields),
        _ => Err(SolutionError::WrongEncoding),
    }
}

/// Puts `raw` behind its size prefix.
pub fn serialize_with_size_encoding(raw: &[u8]) -> (framed: Vec<u8>)
    ensures
        framed@ == size_prefixed(raw@),
        framed@.subrange(8, framed@.len() as int) == raw@,
{
    let mut framed: Vec<u8> = Vec::new();
    write_le(&mut framed, raw.len() as u64, 8);
    append_bytes(&mut framed, raw);
    proof {
        lemma_le_bytes_len(raw@.len(), 8);
        assert(framed@ =~= size_prefixed(raw@));
        assert(framed@.subrange(8, framed@.len() as int) =~= raw@);
    }
    framed
}

/// Takes the bytes that the size prefix at the front of `framed` announces.
/// Fails with `TruncatedInput` when there is no whole prefix, or fewer bytes
/// behind it than it announces.
pub fn deserialize_with_size_encoding(framed: &[u8]) -> (raw: Result<Vec<u8>, SolutionError>)
    ensures
        match size_prefix_stripped(framed@) {
            Ok(bytes) => raw is Ok && raw->Ok_0@ == bytes,
            Err(e) => raw == Err::<Vec<u8>, SolutionError>(e),
        },
{
    if framed.len() < SIZE_PREFIX_SIZE {
        return Err(SolutionError::TruncatedInput);
    }
    let announced: u64 = read_le(framed, 0, 8);
    let behind: usize = framed.len() - SIZE_PREFIX_SIZE;
    if (behind as u64) < announced {
        return Err(SolutionError::TruncatedInput);
    }
    Ok(copy_bytes(framed, SIZE_PREFIX_SIZE, announced as usize))
}

impl PartialSolution {
    /// A partial solution of the given parts.
    pub fn new(address: [u8; 32], nonce: u64, commitment: [u8; 48]) -> (partial: Self)
        ensures
            partial == (PartialSolution { address, nonce, commitment }),
    {
        PartialSolution { address, nonce, commitment }
    }

    /// Reads a partial solution from the 88 bytes of `bytes` that start at
    /// `start`.
    fn read_at(bytes: &[u8], start: usize) -> (partial: Self)
        requires
            start + 88 <= bytes.len(),
        ensures
            partial.address@ == bytes@.subrange(start as int, start + 32),
            partial.nonce == le_value(bytes@.subrange(start + 32, start + 40)) as u64,
            partial.commitment@ == bytes@.subrange(start + 40, start + 88),
    {
        PartialSolution {
            address: read_array::<32>(bytes, start),
            nonce: read_le(bytes, start + 32, 8),
            commitment: read_array::<48>(bytes, start + 40),
        }
    }
}

impl ProverSolution {
    /// A solution of the given partial solution and proof.
    pub fn new(partial_solution: PartialSolution, proof: KZGProof) -> (solution: Self)
        ensures
            solution == (ProverSolution { partial_solution, proof }),
    {
        ProverSolution { partial_solution, proof }
    }

    /// Appends the canonical bytes of the solution to `out`.
    pub fn write_le(&self, out: &mut Vec<u8>)
        ensures
            final(out)@ == old(out)@ + solution_encoding(self@),
            valid_solution(self@),
    {
        append_bytes(out, self.partial_solution.address.as_slice());
        write_le(out, self.partial_solution.nonce, 8);
        append_bytes(out, self.partial_solution.commitment.as_slice());
        append_bytes(out, self.proof.w.as_slice());
        match &self.proof.random_v {
            None => {
                out.push(0u8);
                assert(out@ =~= old(out)@ + solution_encoding(self@));
            },
            Some(v) => {
                out.push(1u8);
                append_bytes(out, v.as_slice());
                assert(out@ =~= old(out)@ + solution_encoding(self@));
            },
        }
    }

    /// Returns the canonical bytes of the solution.
    pub fn to_bytes_le(&self) -> (bytes: Vec<u8>)
        ensures
            bytes@ == solution_encoding(self@),
            valid_solution(self@),
    {
        let mut bytes: Vec<u8> = Vec::new();
        self.write_le(&mut bytes);
        assert(bytes@ =~= solution_encoding(self@));
        bytes
    }

    /// Tells how many bytes of a solution stand behind its first 137: none
    /// without a blinding scalar, 32 with one. A reader of a byte stream
    /// learns from this how much more to read.
    ///
    /// Fails with `TruncatedInput` on fewer than 137 bytes, and with
    /// `MalformedOption` when the byte that announces the blinding scalar
    /// is neither 0 nor 1.
    pub fn trailing_width(head: &[u8]) -> (width: Result<usize, SolutionError>)
        ensures
            width == if head@.len() < 137 {
                Err::<usize, SolutionError>(SolutionError::TruncatedInput)
            } else if head@[136] == 0 {
                Ok(0usize)
            } else if head@[136] == 1 {
                Ok(32usize)
            } else {
                Err(SolutionError::MalformedOption)
            },
    {
        if head.len() < 137 {
            Err(SolutionError::TruncatedInput)
        } else if head[136] == 0 {
            Ok(0)
        } else if head[136] == 1 {
            Ok(SCALAR_SIZE)
        } else {
            Err(SolutionError::MalformedOption)
        }
    }

    /// Reads a solution from the front of canonical bytes.
    ///
    /// Fails with `TruncatedInput` when fewer bytes remain than the next
    /// item is wide, and with `MalformedOption` when the byte that announces
    /// the blinding scalar is neither 0 nor 1.
    pub fn read_le(bytes: &[u8]) -> (decoded: Result<Self, SolutionError>)
        ensures
            match solution_decoding(bytes@) {
                Ok(solution) => decoded is Ok && decoded->Ok_0@ == solution,
                Err(e) => decoded == Err::<Self, SolutionError>(e),
            },
    {
        if bytes.len() < 137 {
            return Err(SolutionError::TruncatedInput);
        }
        let partial_solution = PartialSolution::read_at(bytes, 0);
        let w = read_array::<48>(bytes, 88);
        let flag: u8 = bytes[136];
        proof {
            let partial = bytes@.subrange(0, 88);
            assert(partial.subrange(0, 32) =~= bytes@.subrange(0, 32));
            assert(partial.subrange(32, 40) =~= bytes@.subrange(32, 40));
            assert(partial.subrange(40, 88) =~= bytes@.subrange(40, 88));
        }
        if flag == 0 {
            Ok(ProverSolution { partial_solution, proof: KZGProof { w, random_v: None } })
        } else if flag != 1 {
            Err(SolutionError::MalformedOption)
        } else if bytes.len() < 169 {
            Err(SolutionError::TruncatedInput)
        } else {
            let v = read_array::<32>(bytes, 137);
            Ok(ProverSolution { partial_solution, proof: KZGProof { w, random_v: Some(v) } })
        }
    }

    /// Encodes the solution in the mode that the caller chooses.
    ///
    /// In the human-readable mode the fields are `partial_solution`,
    /// `proof.w` and, only when there is a blinding scalar,
    /// `proof.random_v`. In the compact mode the canonical bytes stand
    /// behind their size prefix.
    pub fn serialize(&self, mode: Encoding) -> (encoded: Encoded)
        ensures
            encoded@ == serialization(self@, mode),
    {
        match mode {
            Encoding::HumanReadable => {
                let mut partial: Vec<u8> = Vec::new();
                append_bytes(&mut partial, self.partial_solution.address.as_slice());
                write_le(&mut partial, self.partial_solution.nonce, 8);
                append_bytes(&mut partial, self.partial_solution.commitment.as_slice());
                assert(partial@ =~= partial_solution_encoding(self@));
                let mut w: Vec<u8> = Vec::new();
                append_bytes(&mut w, self.proof.w.as_slice());
                assert(w@ =~= self@.w);
                let mut fields: Vec<Field> = Vec::new();
                fields.push(Field { name: PARTIAL_SOLUTION_FIELD.to_owned(), value: partial });
                fields.push(Field { name: PROOF_W_FIELD.to_owned(), value: w });
                if let Some(random_v) = &self.proof.random_v {
                    let mut v: Vec<u8> = Vec::new();
                    append_bytes(&mut v, random_v.as_slice());
                    assert(v@ =~= self@.random_v->Some_0);
                    fields.push(Field { name: PROOF_RANDOM_V_FIELD.to_owned(), value: v });
                }
                assert(field_models(fields@) =~= solution_fields(self@));
                Encoded::HumanReadable(fields)
            },
            Encoding::Compact => {
                let raw = self.to_bytes_le();
                Encoded::Compact(serialize_with_size_encoding(raw.as_slice()))
            },
        }
    }

    /// Decodes a solution in the mode that the caller chooses.
    ///
    /// In the human-readable mode an absent `proof.random_v` means that
    /// there is no blinding scalar. Fails with `WrongEncoding` when
    /// `encoded` is not in the chosen mode, and as the decoder of the mode
    /// fails.
    pub fn deserialize(mode: Encoding, encoded: &Encoded) -> (decoded: Result<
        Self,
        SolutionError,
    >)
        ensures
            match deserialization(mode, encoded@) {
                Ok(solution) => decoded is Ok && decoded->Ok_0@ == solution,
                Err(e) => decoded == Err::<Self, SolutionError>(e),
            },
    {
        match (mode, encoded) {
            (Encoding::HumanReadable, Encoded::HumanReadable(fields)) => {
                Self::from_fields(fields)
            },
            (Encoding::Compact, Encoded::Compact(framed)) => {
                match deserialize_with_size_encoding(framed.as_slice()) {
                    Ok(raw) => Self::read_le(raw.as_slice()),
                    Err(e) => Err(e),
                }
            },
            _ => Err(SolutionError::WrongEncoding),
        }
    }

    /// Decodes a solution from named fields.
    ///
    /// Fails with `MissingField` when `partial_solution` or `proof.w` is
    /// absent, and with `MalformedField` when a value has not the width of
    /// what it holds.
    pub fn from_fields(fields: &Vec<Field>) -> (decoded: Result<Self, SolutionError>)
        ensures
            match fields_decoding(field_models(fields@)) {
                Ok(solution) => decoded is Ok && decoded->Ok_0@ == solution,
                Err(e) => decoded == Err::<Self, SolutionError>(e),
            },
    {
        let partial = match find_field(fields, PARTIAL_SOLUTION_FIELD) {
            Some(value) => value,
            None => {
                return Err(SolutionError::MissingField);
            },
        };
        if partial.len() != PARTIAL_SOLUTION_SIZE {
            return Err(SolutionError::MalformedField);
        }
        let partial_solution = PartialSolution::read_at(partial.as_slice(), 0);
        let w = match find_field(fields, PROOF_W_FIELD) {
            Some(value) => value,
            None => {
                return Err(SolutionError::MissingField);
            },
        };
        if w.len() != COMMITMENT_SIZE {
            return Err(SolutionError::MalformedField);
        }
        assert(w@.subrange(0, 48) =~= w@);
        let w = read_array::<48>(w.as_slice(), 0);
        let random_v = match find_field(fields, PROOF_RANDOM_V_FIELD) {
            Some(value) => {
                if value.len() != SCALAR_SIZE {
                    return Err(SolutionError::MalformedField);
                }
                assert(value@.subrange(0, 32) =~= value@);
                Some(read_array::<32>(value.as_slice(), 0))
            },
            None => None,
        };
        Ok(ProverSolution { partial_solution, proof: KZGProof { w, random_v } })
    }
}

/// Finds the value of the first field that is named `name`.
pub fn find_field<'a>(fields: &'a Vec<Field>, name: &str) -> (value: Option<&'a Vec<u8>>)
    ensures
        match field_value(field_models(fields@), name@) {
            Some(v) => value is Some && value->Some_0@ == v,
            None => value is None,
        },
{
    let wanted: String = name.to_owned();
    let mut i: usize = 0;
    assert(field_models(fields@).subrange(0, fields@.len() as int) =~= field_models(fields@));
    while i < fields.len()
        invariant
            i <= fields.len(),
            wanted@ == name@,
            field_value(field_models(fields@), name@) == field_value(
                field_models(fields@).subrange(i as int, fields@.len() as int),
                name@,
            ),
        decreases fields.len() - i,
    {
        let ghost rest = field_models(fields@).subrange(i as int, fields@.len() as int);
        assert(rest[0] == fields@[i as int]@);
        assert(rest.drop_first() =~= field_models(fields@).subrange(
            i + 1,
            fields@.len() as int,
        ));
        if fields[i].name == wanted {
            return Some(&fields[i].value);
        }
        i = i + 1;
    }
    assert(field_models(fields@).subrange(i as int, fields@.len() as int).len() == 0);
    None
}

} // verus!

verus! {

/// The canonical bytes of a valid solution are 137 bytes wide without a
/// blinding scalar and 169 with one, and decoding them gives the solution
/// back.
pub proof fn lemma_canonical_round_trip(solution: SolutionModel)
    requires
        valid_solution(solution),
    ensures
        solution_encoding(solution).len() == if solution.random_v is Some {
            169int
        } else {
            137int
        },
        solution_decoding(solution_encoding(solution)) == Ok::<SolutionModel, SolutionError>(
            solution,
        ),
{
    let bytes = solution_encoding(solution);
    let partial = partial_solution_encoding(solution);
    lemma_partial_solution_round_trip(solution);
    assert(bytes.subrange(0, 88) =~= partial);
    assert(bytes.subrange(88, 136) =~= solution.w);
    match solution.random_v {
        None => {
            assert(bytes[136] == 0);
        },
        Some(v) => {
            assert(bytes[136] == 1);
            assert(bytes.subrange(137, 169) =~= v);
        },
    }
}

/// The canonical bytes of the partial solution of a valid solution are 88
/// bytes wide, and every part is read back from its place.
pub proof fn lemma_partial_solution_round_trip(solution: SolutionModel)
    requires
        valid_solution(solution),
    ensures
        partial_solution_encoding(solution).len() == 88,
        solution_of_parts(partial_solution_encoding(solution), solution.w, solution.random_v)
            == solution,
{
    let partial = partial_solution_encoding(solution);
    let nonce = le_bytes(solution.nonce as nat, 8);
    lemma_le_bytes_len(solution.nonce as nat, 8);
    lemma_radix_values();
    lemma_le_value_of_bytes(solution.nonce as nat, 8);
    assert(partial.subrange(0, 32) =~= solution.address);
    assert(partial.subrange(32, 40) =~= nonce);
    assert(partial.subrange(40, 88) =~= solution.commitment);
}

/// Framing agreement: behind the leading 8 bytes of a size-prefixed
/// encoding stand exactly the bytes that were framed, and stripping the
/// prefix gives them back.
pub proof fn lemma_size_prefix_round_trip(bytes: Seq<u8>)
    requires
        bytes.len() <= u64::MAX,
    ensures
        size_prefixed(bytes).len() == 8 + bytes.len(),
        size_prefixed(bytes).subrange(8, 8 + bytes.len() as int) == bytes,
        size_prefix_stripped(size_prefixed(bytes)) == Ok::<Seq<u8>, SolutionError>(bytes),
{
    let framed = size_prefixed(bytes);
    let prefix = le_bytes(bytes.len(), 8);
    lemma_le_bytes_len(bytes.len(), 8);
    lemma_radix_values();
    lemma_le_value_of_bytes(bytes.len(), 8);
    assert(framed.subrange(0, 8) =~= prefix);
    assert(framed.subrange(8, 8 + bytes.len() as int) =~= bytes);
}

/// The three field names differ from one another.
pub proof fn lemma_field_names_differ()
    ensures
        PARTIAL_SOLUTION_FIELD@ != PROOF_W_FIELD@,
        PARTIAL_SOLUTION_FIELD@ != PROOF_RANDOM_V_FIELD@,
        PROOF_W_FIELD@ != PROOF_RANDOM_V_FIELD@,
{
    reveal_strlit("partial_solution");
    reveal_strlit("proof.w");
    reveal_strlit("proof.random_v");
    assert(PARTIAL_SOLUTION_FIELD@.len() == 16);
    assert(PROOF_W_FIELD@.len() == 7);
    assert(PROOF_RANDOM_V_FIELD@.len() == 14);
}

/// Decoding the fields of a valid solution gives the solution back. A
/// solution without a blinding scalar has no field named `proof.random_v`
/// at all, and one with a blinding scalar has it as its third field.
pub proof fn lemma_fields_round_trip(solution: SolutionModel)
    requires
        valid_solution(solution),
    ensures
        fields_decoding(solution_fields(solution)) == Ok::<SolutionModel, SolutionError>(
            solution,
        ),
        solution_fields(solution).len() == if solution.random_v is Some {
            3int
        } else {
            2int
        },
        solution.random_v is None ==> forall|i: int|
            0 <= i < solution_fields(solution).len() ==> (#[trigger] solution_fields(
                solution,
            )[i]).name != PROOF_RANDOM_V_FIELD@,
        solution.random_v is None ==> field_value(solution_fields(solution), PROOF_RANDOM_V_FIELD@)
            is None,
{
    let fields = solution_fields(solution);
    lemma_field_names_differ();
    lemma_partial_solution_round_trip(solution);
    reveal_with_fuel(field_value, 4);
    let second = fields.drop_first();
    let third = second.drop_first();
    assert(second[0] == fields[1]);
    assert(field_value(fields, PARTIAL_SOLUTION_FIELD@) == Some(
        partial_solution_encoding(solution),
    ));
    assert(field_value(fields, PROOF_W_FIELD@) == Some(solution.w));
    match solution.random_v {
        None => {
            assert(third.len() == 0);
            assert(field_value(fields, PROOF_RANDOM_V_FIELD@) is None);
        },
        Some(v) => {
            assert(third[0] == fields[2]);
            assert(field_value(fields, PROOF_RANDOM_V_FIELD@) == Some(v));
        },
    }
}

/// Round trip in both modes: decoding, in a mode, what encoding a valid
/// solution in that mode gave, gives the solution back.
pub proof fn lemma_solution_round_trip(solution: SolutionModel, mode: Encoding)
    requires
        valid_solution(solution),
    ensures
        deserialization(mode, serialization(solution, mode)) == Ok::<
            SolutionModel,
            SolutionError,
        >(solution),
{
    match mode {
        Encoding::Compact => {
            lemma_canonical_round_trip(solution);
            lemma_size_prefix_round_trip(solution_encoding(solution));
        },
        Encoding::HumanReadable => {
            lemma_fields_round_trip(solution);
        },
    }
}

/// Framing agreement for solutions: the compact encoding of a valid
/// solution, without its leading 8 bytes, is the canonical encoding.
pub proof fn lemma_compact_is_prefixed_canonical(solution: SolutionModel)
    requires
        valid_solution(solution),
    ensures
        serialization(solution, Encoding::Compact) == EncodedModel::Compact(
            size_prefixed(solution_encoding(solution)),
        ),
        size_prefixed(solution_encoding(solution)).subrange(
            8,
            size_prefixed(solution_encoding(solution)).len() as int,
        ) == solution_encoding(solution),
{
    lemma_canonical_round_trip(solution);
    lemma_size_prefix_round_trip(solution_encoding(solution));
}

} // verus!

verus! {

/// Whatever a decoder reads from the front of canonical bytes is a valid
/// solution, and encoding it gives back exactly the bytes read.
pub proof fn lemma_solution_decoding_is_exact(bytes: Seq<u8>)
    requires
        solution_decoding(bytes) is Ok,
    ensures
        valid_solution(solution_decoding(bytes)->Ok_0),
        solution_encoding(solution_decoding(bytes)->Ok_0) == bytes.take(
            solution_encoding(solution_decoding(bytes)->Ok_0).len() as int,
        ),
{
    let solution = solution_decoding(bytes)->Ok_0;
    let nonce = bytes.subrange(32, 40);
    lemma_radix_values();
    crate::bytes::lemma_le_value_bound(nonce);
    crate::bytes::lemma_le_bytes_of_value(nonce);
    assert(bytes.subrange(0, 88).subrange(0, 32) =~= bytes.subrange(0, 32));
    assert(bytes.subrange(0, 88).subrange(32, 40) =~= nonce);
    assert(bytes.subrange(0, 88).subrange(40, 88) =~= bytes.subrange(40, 88));
    match solution.random_v {
        None => {
            assert(solution_encoding(solution) =~= bytes.take(137));
        },
        Some(v) => {
            assert(solution_encoding(solution) =~= bytes.take(169));
        },
    }
}

} // verus!
