//! The garbler of a three-party garbled circuit.
//!
//! Of the three parties one evaluates and two garble. Both garblers garble
//! the same circuit in the same order. One of them keeps the blocks of the
//! garbled gates and at the end sends them all; the other keeps a running
//! hash of the same blocks and at the end sends the digest only, so that
//! the evaluator can hold the one against the other.
//!
//! Labels are hashed outside of this module: a gate first names the labels
//! it needs hashed, and is then garbled from the hashes.

use crate::field::random_block;
use crate::field::rng_from_seed;
use crate::field::FieldElement;
use crate::field::RngType;
use crate::field::MODULUS_BIT_SIZE;
use crate::wire::and_gate0;
use crate::wire::and_gate1;
use crate::wire::and_output;
use crate::wire::and_queries;
use crate::wire::and_queries_spec;
use crate::wire::block_bytes;
use crate::wire::block_to_bytes;
use crate::wire::colour;
use crate::wire::garble_and_gate;
use crate::wire::lemma_labels_differ;
use crate::wire::output_tweak;
use crate::wire::output_tweak_spec;
use crate::wire::times;
use crate::wire::HashQuery;
use crate::wire::WireMod2;
use sha3::Digest;
use sha3::Sha3_256;
use vstd::prelude::*;

verus! {

/// A running SHA3-256 hash.
#[verifier::external_body]
pub struct Sha3Hasher {
    inner: Sha3_256,
}

/// The bytes that a running hash has taken in so far.
pub uninterp spec fn absorbed(hasher: Sha3Hasher) -> Seq<u8>;

/// The SHA3-256 digest of a sequence of bytes.
pub uninterp spec fn sha3_256(data: Seq<u8>) -> Seq<u8>;

/// A running hash that has taken in nothing, `Sha3_256::default` of `sha3`.
#[verifier::external_body]
pub(crate) fn hasher_new() -> (hasher: Sha3Hasher)
    ensures
        absorbed(hasher) == Seq::<u8>::empty(),
{
    Sha3Hasher { inner: Sha3_256::default() }
}

/// Feeds one block to a running hash, `Digest::update` of `sha3`: the bytes
/// of the block follow those taken in before.
#[verifier::external_body]
pub(crate) fn hasher_update(hasher: &mut Sha3Hasher, block: &[u8; 16])
    ensures
        absorbed(*final(hasher)) == absorbed(*old(hasher)) + block@,
{
    hasher.inner.update(block);
}

/// Ends a running hash, `Digest::finalize` of `sha3`: the result is the
/// SHA3-256 digest of the bytes taken in.
#[verifier::external_body]
pub(crate) fn hasher_finalize(hasher: Sha3Hasher) -> (digest: [u8; 32])
    ensures
        digest@ == sha3_256(absorbed(hasher)),
{
    hasher.inner.finalize().into()
}

/// The three parties of a session. `ID0` evaluates; `ID1` and `ID2` garble.
#[derive(Clone, Copy, Debug, PartialEq, Eq, Structural)]
pub enum PartyID {
    ID0,
    ID1,
    ID2,
}

/// Why a garbler refuses what is asked of it, or what it was given.
#[derive(Clone, Copy, Debug, PartialEq, Eq, Structural)]
pub enum GarblerError {
    /// The evaluator cannot garble.
    EvaluatorRole,
    /// The circuit has been sent; nothing can be added to it.
    CircuitSent,
    /// The circuit has not been sent; no output can be read back.
    CircuitNotSent,
    /// More outputs are read back than were revealed.
    OutputNotRevealed,
    /// The number of gates or outputs cannot be counted any further.
    CounterExhausted,
    /// The number of blocks received is not the number of outputs.
    InvalidBlockCount,
    /// A block received is neither of the two labels of its output.
    InvalidBlock,
}

/// The bytes of a sequence of blocks, one block after the other.
pub open spec fn flatten_blocks(blocks: Seq<[u8; 16]>) -> Seq<u8>
    decreases blocks.len(),
{
    if blocks.len() == 0 {
        Seq::<u8>::empty()
    } else {
        flatten_blocks(blocks.drop_last()) + blocks.last()@
    }
}

/// Where the blocks of the garbled gates go: into a buffer, to be sent as
/// they are, or into a running hash, of which the digest is sent.
pub enum GateSink {
    Buffer(Vec<[u8; 16]>),
    Hash(Sha3Hasher),
}

/// What a garbler sends to the evaluator when the circuit is complete.
#[derive(Debug)]
pub enum Transmission {
    /// The blocks of the garbled gates, in the order of garbling.
    Circuit(Vec<[u8; 16]>),
    /// The digest of the bytes of the same blocks.
    Digest([u8; 32]),
}

/// What a [`Transmission`] holds.
pub enum TransmissionView {
    Circuit(Seq<[u8; 16]>),
    Digest(Seq<u8>),
}

impl View for Transmission {
    type V = TransmissionView;

    open spec fn view(&self) -> TransmissionView {
        match self {
            Transmission::Circuit(blocks) => TransmissionView::Circuit(blocks@),
            Transmission::Digest(digest) => TransmissionView::Digest(digest@),
        }
    }
}

impl GateSink {
    /// The bytes of all blocks that went into the sink, in their order.
    pub open spec fn stream(self) -> Seq<u8> {
        match self {
            GateSink::Buffer(blocks) => flatten_blocks(blocks@),
            GateSink::Hash(hasher) => absorbed(hasher),
        }
    }

    /// The garbler that has this kind of sink.
    pub open spec fn party(self) -> PartyID {
        match self {
            GateSink::Buffer(_) => PartyID::ID1,
            GateSink::Hash(_) => PartyID::ID2,
        }
    }

    /// What is sent of the sink's contents.
    pub open spec fn transmission(self) -> TransmissionView {
        match self {
            GateSink::Buffer(blocks) => TransmissionView::Circuit(blocks@),
            GateSink::Hash(hasher) => TransmissionView::Digest(sha3_256(absorbed(hasher))),
        }
    }

    /// The empty sink of a party, if the party is a garbler.
    pub fn for_party(id: PartyID) -> (r: Option<GateSink>)
        ensures
            match r {
                Some(sink) => id != PartyID::ID0 && sink.party() == id && sink.stream()
                    == Seq::<u8>::empty(),
                None => id == PartyID::ID0,
            },
    {
        match id {
            PartyID::ID0 => None,
            PartyID::ID1 => Some(GateSink::Buffer(Vec::new())),
            PartyID::ID2 => Some(GateSink::Hash(hasher_new())),
        }
    }

    /// Puts one block into the sink.
    pub fn add_block(&mut self, block: u128)
        ensures
            final(self).stream() == old(self).stream() + block_bytes(block),
            final(self).party() == old(self).party(),
    {
        let bytes = block_to_bytes(block);
        match self {
            GateSink::Buffer(blocks) => {
                let ghost before = blocks@;
                blocks.push(bytes);
                assert(blocks@.drop_last() =~= before);
            },
            GateSink::Hash(hasher) => {
                hasher_update(hasher, &bytes);
            },
        }
    }

    /// Ends the sink, and gives what is sent of its contents.
    pub fn finish(self) -> (r: Transmission)
        ensures
            r@ == self.transmission(),
    {
        match self {
            GateSink::Buffer(blocks) => Transmission::Circuit(blocks),
            GateSink::Hash(hasher) => Transmission::Digest(hasher_finalize(hasher)),
        }
    }
}

/// One step of garbling that puts blocks into the sink.
pub enum GateOp {
    /// An AND gate of the wires with zero labels `a` and `b`, garbled from
    /// the hashes of the four labels it names.
    And { a: u128, b: u128, hashes: Seq<u128> },
    /// The reveal of an output, whose two blocks are the hashes given.
    Output { hashes: Seq<u128> },
    /// A block that goes into the sink as it is.
    Block { block: u128 },
}

/// What a garbler has done so far, whichever of the two garblers it is.
pub struct GarblerModel {
    /// The offset between the two labels of every wire.
    pub delta: u128,
    /// The number of AND gates garbled.
    pub gates: nat,
    /// The number of outputs revealed.
    pub outputs: nat,
    /// The bytes of all blocks that went into the sink.
    pub stream: Seq<u8>,
    /// Whether the circuit has been sent.
    pub sent: bool,
}

impl GarblerModel {
    /// A garbler that has done nothing yet.
    pub open spec fn initial(delta: u128) -> GarblerModel {
        GarblerModel { delta: delta, gates: 0, outputs: 0, stream: Seq::empty(), sent: false }
    }

    /// The garbler after one more step.
    pub open spec fn step(self, op: GateOp) -> GarblerModel {
        match op {
            GateOp::And { a, b, hashes } => GarblerModel {
                gates: self.gates + 1,
                stream: self.stream + block_bytes(and_gate0(b, self.delta, hashes)) + block_bytes(
                    and_gate1(a, hashes),
                ),
                ..self
            },
            GateOp::Output { hashes } => GarblerModel {
                outputs: self.outputs + 1,
                stream: self.stream + block_bytes(hashes[0]) + block_bytes(hashes[1]),
                ..self
            },
            GateOp::Block { block } => GarblerModel {
                stream: self.stream + block_bytes(block),
                ..self
            },
        }
    }

    /// The garbler after a sequence of steps.
    pub open spec fn run(self, ops: Seq<GateOp>) -> GarblerModel
        decreases ops.len(),
    {
        if ops.len() == 0 {
            self
        } else {
            self.run(ops.drop_last()).step(ops.last())
        }
    }

    /// No step changes the offset, or whether the circuit has been sent.
    pub proof fn lemma_run_keeps(self, ops: Seq<GateOp>)
        ensures
            self.run(ops).delta == self.delta,
            self.run(ops).sent == self.sent,
        decreases ops.len(),
    {
        if ops.len() > 0 {
            self.lemma_run_keeps(ops.drop_last());
        }
    }

    /// The garbler after its circuit has been sent: a new circuit begins,
    /// to which nothing can be added.
    pub open spec fn after_send(self) -> GarblerModel {
        GarblerModel { stream: Seq::empty(), sent: true, ..self }
    }
}

/// The reveals of the outputs whose hashes are given, one step for each.
pub open spec fn output_ops(hashes: Seq<[u128; 2]>) -> Seq<GateOp> {
    Seq::new(hashes.len(), |j: int| GateOp::Output { hashes: hashes[j]@ })
}

/// One block for each label, put into the sink as it is.
pub open spec fn block_ops(wires: Seq<WireMod2>) -> Seq<GateOp> {
    Seq::new(wires.len(), |j: int| GateOp::Block { block: wires[j].val })
}

/// The two labels that revealing output number `output` of the wire with
/// zero label `x` hashes: the label of the bit zero and that of the bit
/// one, each under its own tweak.
pub open spec fn output_queries_spec(output: u64, x: u128, delta: u128) -> Seq<HashQuery> {
    seq![
        HashQuery { label: x, tweak: output_tweak_spec(output, 0) },
        HashQuery { label: x ^ delta, tweak: output_tweak_spec(output, 1) },
    ]
}

/// The bit that a block received for an output stands for: zero if it is
/// the zero label, one if it is the zero label with `delta` added. Another
/// block stands for no bit.
pub open spec fn decoded_bit(block: Seq<u8>, zero: u128, delta: u128) -> Option<bool> {
    if block == block_bytes(zero) {
        Some(false)
    } else if block == block_bytes(zero ^ delta) {
        Some(true)
    } else {
        None
    }
}

/// Reading back is correct: unless `delta` is zero, the block of the label
/// of a bit on a wire stands for that bit.
pub proof fn lemma_decode_label(zero: u128, delta: u128, bit: bool)
    requires
        delta != 0,
    ensures
        decoded_bit(block_bytes(zero ^ times(bit, delta)), zero, delta) == Some(bit),
{
    lemma_labels_differ(zero, delta);
    assert(zero ^ 0 == zero) by (bit_vector);
}

/// Whether two blocks hold the same bytes.
pub fn same_block(a: &[u8; 16], b: &[u8; 16]) -> (r: bool)
    ensures
        r == (a@ == b@),
{
    let mut i: usize = 0;
    while i < 16
        invariant
            i <= 16,
            forall|j: int| 0 <= j < i ==> a[j] == b[j],
        decreases 16 - i,
    {
        if a[i] != b[i] {
            return false;
        }
        i += 1;
    }
    assert(a@ =~= b@);
    true
}

/// Reads the bit of one output off the block received for it.
pub fn decode_block(block: &[u8; 16], zero: &WireMod2, delta: &WireMod2) -> (r: Option<bool>)
    ensures
        r == decoded_bit(block@, zero.val, delta.val),
{
    let label0 = block_to_bytes(zero.val);
    if same_block(block, &label0) {
        return Some(false);
    }
    let label1 = block_to_bytes(zero.val ^ delta.val);
    if same_block(block, &label1) {
        Some(true)
    } else {
        None
    }
}

/// The reason for which the bits of outputs cannot be read off the blocks
/// given for them, if there is one: the blocks are not as many as the
/// outputs, or one of them is neither label of its output.
pub open spec fn blocks_error(x: Seq<WireMod2>, blocks: Seq<[u8; 16]>, delta: u128) -> Option<
    GarblerError,
> {
    if blocks.len() != x.len() {
        Some(GarblerError::InvalidBlockCount)
    } else if exists|i: int|
        0 <= i < x.len() && decoded_bit(#[trigger] blocks[i]@, x[i].val, delta) is None {
        Some(GarblerError::InvalidBlock)
    } else {
        None
    }
}

/// `bits` holds what the blocks stand for, one bit for each output: zero
/// where the block is the zero label of the output, and, unless `delta` is
/// zero, one where it is the zero label with `delta` added.
pub open spec fn is_decoding(
    x: Seq<WireMod2>,
    blocks: Seq<[u8; 16]>,
    delta: u128,
    bits: Seq<bool>,
) -> bool {
    &&& bits.len() == x.len()
    &&& blocks.len() == x.len()
    &&& forall|i: int|
        0 <= i < x.len() ==> Some(#[trigger] bits[i]) == decoded_bit(blocks[i]@, x[i].val, delta)
    &&& forall|i: int|
        0 <= i < x.len() && blocks[i]@ == block_bytes(x[i].val) ==> !(#[trigger] bits[i])
    &&& forall|i: int|
        0 <= i < x.len() && delta != 0 && blocks[i]@ == block_bytes(x[i].val ^ delta)
            ==> #[trigger] bits[i]
}

/// Reads the bits of the outputs with zero labels `x` off the blocks given
/// for them, one block for each output, whatever the state of a garbler.
pub fn decode_blocks(x: &[WireMod2], blocks: &[[u8; 16]], delta: &WireMod2) -> (r: Result<
    Vec<bool>,
    GarblerError,
>)
    ensures
        match r {
            Ok(bits) => blocks_error(x@, blocks@, delta.val) is None && is_decoding(
                x@,
                blocks@,
                delta.val,
                bits@,
            ),
            Err(e) => blocks_error(x@, blocks@, delta.val) == Some(e),
        },
{
    if blocks.len() != x.len() {
        return Err(GarblerError::InvalidBlockCount);
    }
    let mut bits: Vec<bool> = Vec::new();
    let mut i: usize = 0;
    while i < x.len()
        invariant
            i <= x.len(),
            blocks.len() == x.len(),
            bits.len() == i,
            forall|j: int|
                0 <= j < i ==> decoded_bit(#[trigger] blocks[j]@, x[j].val, delta.val) is Some,
            forall|j: int|
                0 <= j < i ==> Some(#[trigger] bits[j]) == decoded_bit(
                    blocks[j]@,
                    x[j].val,
                    delta.val,
                ),
        decreases x.len() - i,
    {
        match decode_block(&blocks[i], &x[i], delta) {
            Some(bit) => {
                bits.push(bit);
            },
            None => {
                assert(decoded_bit(blocks[i as int]@, x[i as int].val, delta.val) is None);
                return Err(GarblerError::InvalidBlock);
            },
        }
        i += 1;
    }
    proof {
        assert forall|j: int|
            0 <= j < x.len() && delta.val != 0 && blocks[j]@ == block_bytes(
                x[j].val ^ delta.val,
            ) implies #[trigger] bits[j] by {
            lemma_labels_differ(x[j].val, delta.val);
        }
    }
    Ok(bits)
}

/// The labels of the bits of a field element: for each bit the zero label
/// of its wire, which the garbler keeps, and the label of the bit itself,
/// which goes to the evaluator.
#[derive(Debug)]
pub struct GCInputs {
    pub garbler_wires: Vec<WireMod2>,
    pub evaluator_wires: Vec<WireMod2>,
    pub delta: WireMod2,
}

/// The garbler of one session.
pub struct Rep3Garbler {
    sink: GateSink,
    delta: WireMod2,
    current_output: usize,
    current_gate: usize,
    rng: RngType,
    sent: bool,
}

impl Rep3Garbler {
    /// What the garbler has done so far. The generator that it draws its
    /// labels from stands apart, under [`Self::generator`].
    pub closed spec fn model(&self) -> GarblerModel {
        GarblerModel {
            delta: self.delta.val,
            gates: self.current_gate as nat,
            outputs: self.current_output as nat,
            stream: self.sink.stream(),
            sent: self.sent,
        }
    }

    /// Which of the two garblers this is.
    pub closed spec fn party(&self) -> PartyID {
        self.sink.party()
    }

    /// The generator that the garbler draws its labels from, as it stands.
    pub closed spec fn generator(&self) -> RngType {
        self.rng
    }

    /// What the garbler would send if the circuit were complete now.
    pub closed spec fn transmission(&self) -> TransmissionView {
        self.sink.transmission()
    }

    /// The reason for which nothing can be added to the circuit, if there
    /// is one.
    pub open spec fn write_error(model: GarblerModel, gates: nat, outputs: nat) -> Option<
        GarblerError,
    > {
        if model.sent {
            Some(GarblerError::CircuitSent)
        } else if model.gates + gates > usize::MAX || model.outputs + outputs > usize::MAX {
            Some(GarblerError::CounterExhausted)
        } else {
            None
        }
    }

    /// A garbler is one of the two garbling parties, and counts with
    /// machine numbers.
    pub proof fn lemma_garbler(&self)
        ensures
            self.party() != PartyID::ID0,
            self.model().gates <= usize::MAX,
            self.model().outputs <= usize::MAX,
    {
    }

    /// A new garbler for the party `id`, with a random offset drawn from
    /// the generator that `seed` starts. The evaluator gets none.
    pub fn new(id: PartyID, seed: [u8; 32]) -> (r: Result<Self, GarblerError>)
        ensures
            match r {
                Ok(garbler) => id != PartyID::ID0 && garbler.party() == id && colour(
                    garbler.model().delta,
                ) && garbler.model() == GarblerModel::initial(garbler.model().delta),
                Err(e) => id == PartyID::ID0 && e == GarblerError::EvaluatorRole,
            },
    {
        let sink = match GateSink::for_party(id) {
            Some(sink) => sink,
            None => {
                return Err(GarblerError::EvaluatorRole);
            },
        };
        let mut rng = rng_from_seed(seed);
        let block: u128 = random_block(&mut rng);
        let delta = WireMod2 { val: block | 1 };
        assert((block | 1) & 1 == 1) by (bit_vector);
        Ok(Rep3Garbler { sink, delta, current_output: 0, current_gate: 0, rng, sent: false })
    }

    /// A new garbler for the party `id` with the given offset, its labels
    /// drawn from the generator that `seed` starts. The evaluator gets
    /// none.
    pub fn new_with_delta(id: PartyID, seed: [u8; 32], delta: WireMod2) -> (r: Result<
        Self,
        GarblerError,
    >)
        ensures
            match r {
                Ok(garbler) => id != PartyID::ID0 && garbler.party() == id && garbler.model()
                    == GarblerModel::initial(delta.val),
                Err(e) => id == PartyID::ID0 && e == GarblerError::EvaluatorRole,
            },
    {
        let sink = match GateSink::for_party(id) {
            Some(sink) => sink,
            None => {
                return Err(GarblerError::EvaluatorRole);
            },
        };
        let rng = rng_from_seed(seed);
        Ok(Rep3Garbler { sink, delta, current_output: 0, current_gate: 0, rng, sent: false })
    }

    /// Which of the two garblers this is.
    pub fn id(&self) -> (r: PartyID)
        ensures
            r == self.party(),
            r != PartyID::ID0,
    {
        match self.sink {
            GateSink::Buffer(_) => PartyID::ID1,
            GateSink::Hash(_) => PartyID::ID2,
        }
    }

    /// The offset between the two labels of every wire.
    pub fn delta(&self) -> (r: WireMod2)
        ensures
            r.val == self.model().delta,
    {
        self.delta
    }

    /// Ends the garbler and gives its offset.
    pub fn into_delta(self) -> (r: WireMod2)
        ensures
            r.val == self.model().delta,
    {
        self.delta
    }

    /// Whether the circuit has been sent.
    pub fn is_sent(&self) -> (r: bool)
        ensures
            r == self.model().sent,
    {
        self.sent
    }

    /// Puts one block into the circuit.
    pub fn add_block_to_circuit(&mut self, block: u128) -> (r: Result<(), GarblerError>)
        ensures
            final(self).party() == old(self).party(),
            final(self).generator() == old(self).generator(),
            match r {
                Ok(_) => !old(self).model().sent && final(self).model() == old(self).model().step(
                    GateOp::Block { block: block },
                ),
                Err(e) => {
                    &&& old(self).model().sent
                    &&& e == GarblerError::CircuitSent
                    &&& final(self).model() == old(self).model()
                },
            },
    {
        if self.sent {
            return Err(GarblerError::CircuitSent);
        }
        self.sink.add_block(block);
        Ok(())
    }

    /// Puts the block of one label into the circuit.
    pub fn add_wire_to_circuit(&mut self, wire: &WireMod2) -> (r: Result<(), GarblerError>)
        ensures
            final(self).party() == old(self).party(),
            final(self).generator() == old(self).generator(),
            match r {
                Ok(_) => !old(self).model().sent && final(self).model() == old(self).model().step(
                    GateOp::Block { block: wire.val },
                ),
                Err(e) => {
                    &&& old(self).model().sent
                    &&& e == GarblerError::CircuitSent
                    &&& final(self).model() == old(self).model()
                },
            },
    {
        self.add_block_to_circuit(wire.val)
    }

    /// Puts the blocks of a bundle of labels into the circuit, in their
    /// order.
    pub fn add_bundle_to_circuit(&mut self, wires: &[WireMod2]) -> (r: Result<(), GarblerError>)
        ensures
            final(self).party() == old(self).party(),
            final(self).generator() == old(self).generator(),
            match r {
                Ok(_) => !old(self).model().sent && final(self).model() == old(self).model().run(
                    block_ops(wires@),
                ),
                Err(e) => {
                    &&& old(self).model().sent
                    &&& e == GarblerError::CircuitSent
                    &&& final(self).model() == old(self).model()
                },
            },
    {
        if self.sent {
            return Err(GarblerError::CircuitSent);
        }
        let mut j: usize = 0;
        assert(block_ops(wires@).take(0) =~= Seq::<GateOp>::empty());
        while j < wires.len()
            invariant
                j <= wires.len(),
                !self.sent,
                self.party() == old(self).party(),
                self.generator() == old(self).generator(),
                self.model() == old(self).model().run(block_ops(wires@).take(j as int)),
            decreases wires.len() - j,
        {
            let ghost done = block_ops(wires@).take(j as int);
            let ghost next = block_ops(wires@).take(j + 1);
            assert(next.drop_last() =~= done);
            assert(next.last() == GateOp::Block { block: wires[j as int].val });
            self.sink.add_block(wires[j].val);
            j += 1;
        }
        assert(block_ops(wires@).take(j as int) =~= block_ops(wires@));
        Ok(())
    }

    /// A fresh zero label and the label of the bit `val % 2` on the same
    /// wire.
    pub fn encode_wire(&mut self, val: u16) -> (r: (WireMod2, WireMod2))
        ensures
            r.1.val == r.0.val ^ times(val % 2 == 1, old(self).model().delta),
            final(self).model() == old(self).model(),
            final(self).party() == old(self).party(),
    {
        let zero = WireMod2 { val: random_block(&mut self.rng) };
        let enc = zero.plus(&self.delta.cmul(val));
        (zero, enc)
    }

    /// Fresh labels for the bits of a field element, the least significant
    /// bit first.
    pub fn encode_field(&mut self, field: FieldElement) -> (r: GCInputs)
        ensures
            final(self).model() == old(self).model(),
            final(self).party() == old(self).party(),
            r.delta.val == old(self).model().delta,
            r.garbler_wires.len() == MODULUS_BIT_SIZE,
            r.evaluator_wires.len() == MODULUS_BIT_SIZE,
            forall|i: int|
                0 <= i < MODULUS_BIT_SIZE ==> (#[trigger] r.evaluator_wires[i]).val
                    == r.garbler_wires[i].val ^ times(field.bit(i), r.delta.val),
    {
        let mut garbler_wires: Vec<WireMod2> = Vec::new();
        let mut evaluator_wires: Vec<WireMod2> = Vec::new();
        let mut i: usize = 0;
        while i < MODULUS_BIT_SIZE
            invariant
                i <= MODULUS_BIT_SIZE,
                self.model() == old(self).model(),
                self.party() == old(self).party(),
                garbler_wires.len() == i,
                evaluator_wires.len() == i,
                forall|j: int|
                    0 <= j < i ==> (#[trigger] evaluator_wires[j]).val == garbler_wires[j].val
                        ^ times(field.bit(j), self.delta.val),
            decreases MODULUS_BIT_SIZE - i,
        {
            let bit: u16 = if field.get_bit(i) {
                1
            } else {
                0
            };
            let (zero, enc) = self.encode_wire(bit);
            garbler_wires.push(zero);
            evaluator_wires.push(enc);
            i += 1;
        }
        GCInputs { garbler_wires, evaluator_wires, delta: self.delta }
    }

    /// A wire that carries the constant bit `x % 2`: its label goes into
    /// the circuit, and its fresh zero label is given back.
    pub fn constant(&mut self, x: u16) -> (r: Result<WireMod2, GarblerError>)
        ensures
            final(self).party() == old(self).party(),
            match r {
                Ok(zero) => !old(self).model().sent && final(self).model() == old(self).model().step(
                    GateOp::Block { block: zero.val ^ times(x % 2 == 1, old(self).model().delta) },
                ),
                Err(e) => {
                    &&& old(self).model().sent
                    &&& e == GarblerError::CircuitSent
                    &&& final(self).model() == old(self).model()
                },
            },
    {
        if self.sent {
            return Err(GarblerError::CircuitSent);
        }
        let (zero, wire) = self.encode_wire(x);
        self.sink.add_block(wire.val);
        Ok(zero)
    }

    /// The labels that the next AND gate hashes, if it is an AND of the
    /// wires with zero labels `a` and `b`.
    pub fn and_queries(&self, a: &WireMod2, b: &WireMod2) -> (r: [HashQuery; 4])
        ensures
            r@ == and_queries_spec(
                self.model().gates as u64,
                a.val,
                b.val,
                self.model().delta,
            ),
    {
        and_queries(self.current_gate as u64, a, b, &self.delta)
    }

    /// Garbles an AND gate of the wires with zero labels `a` and `b` from
    /// the hashes of the labels that [`Self::and_queries`] names. The two
    /// blocks of this AND gate go into the circuit; the zero label of the output
    /// wire is given back.
    pub fn and(&mut self, a: &WireMod2, b: &WireMod2, hashes: &[u128; 4]) -> (r: Result<
        WireMod2,
        GarblerError,
    >)
        ensures
            final(self).party() == old(self).party(),
            final(self).generator() == old(self).generator(),
            match r {
                Ok(c) => Self::write_error(old(self).model(), 1, 0) is None && final(self).model()
                    == old(self).model().step(GateOp::And { a: a.val, b: b.val, hashes: hashes@ })
                    && c.val == and_output(a.val, b.val, old(self).model().delta, hashes@),
                Err(e) => {
                    &&& Self::write_error(old(self).model(), 1, 0) == Some(e)
                    &&& final(self).model() == old(self).model()
                },
            },
    {
        if self.sent {
            return Err(GarblerError::CircuitSent);
        }
        if self.current_gate == usize::MAX {
            return Err(GarblerError::CounterExhausted);
        }
        let (gate0, gate1, c) = garble_and_gate(a, b, &self.delta, hashes);
        self.current_gate = self.current_gate + 1;
        self.sink.add_block(gate0);
        self.sink.add_block(gate1);
        Ok(c)
    }

    /// The sum of two wires, which costs nothing: the zero label of the
    /// wire that carries the exclusive or of their bits.
    pub fn xor(&self, x: &WireMod2, y: &WireMod2) -> (r: WireMod2)
        ensures
            r.val == x.val ^ y.val,
    {
        x.plus(y)
    }

    /// The negation of a wire, which costs nothing: the zero label of the
    /// wire that carries the other bit.
    pub fn negate(&self, x: &WireMod2) -> (r: WireMod2)
        ensures
            r.val == self.model().delta ^ x.val,
    {
        self.delta.plus(x)
    }

    /// The labels that the next reveal hashes, if it is the reveal of the
    /// wire with zero label `x`.
    pub fn output_queries(&self, x: &WireMod2) -> (r: [HashQuery; 2])
        ensures
            r@ == output_queries_spec(self.model().outputs as u64, x.val, self.model().delta),
    {
        let i: u64 = self.current_output as u64;
        let r = [
            HashQuery { label: x.val, tweak: output_tweak(i, 0) },
            HashQuery { label: x.val ^ self.delta.val, tweak: output_tweak(i, 1) },
        ];
        assert(r@ =~= output_queries_spec(i, x.val, self.delta.val));
        r
    }

    /// Reveals an output to the evaluator: the hashes of the two labels
    /// that [`Self::output_queries`] names go into the circuit.
    pub fn output(&mut self, hashes: &[u128; 2]) -> (r: Result<(), GarblerError>)
        ensures
            final(self).party() == old(self).party(),
            final(self).generator() == old(self).generator(),
            match r {
                Ok(_) => Self::write_error(old(self).model(), 0, 1) is None && final(self).model()
                    == old(self).model().step(GateOp::Output { hashes: hashes@ }),
                Err(e) => {
                    &&& Self::write_error(old(self).model(), 0, 1) == Some(e)
                    &&& final(self).model() == old(self).model()
                },
            },
    {
        if self.sent {
            return Err(GarblerError::CircuitSent);
        }
        if self.current_output == usize::MAX {
            return Err(GarblerError::CounterExhausted);
        }
        self.current_output = self.current_output + 1;
        self.sink.add_block(hashes[0]);
        self.sink.add_block(hashes[1]);
        Ok(())
    }

    /// The labels that the reveals of the wires with zero labels `x` hash,
    /// if they are the next reveals, in their order.
    pub fn outputs_queries(&self, x: &[WireMod2]) -> (r: Option<Vec<[HashQuery; 2]>>)
        ensures
            match r {
                Some(queries) => self.model().outputs + x.len() <= usize::MAX && queries.len()
                    == x.len() && forall|j: int|
                    0 <= j < x.len() ==> (#[trigger] queries[j])@ == output_queries_spec(
                        (self.model().outputs + j) as u64,
                        x[j].val,
                        self.model().delta,
                    ),
                None => self.model().outputs + x.len() > usize::MAX,
            },
    {
        if x.len() > usize::MAX - self.current_output {
            return None;
        }
        let mut queries: Vec<[HashQuery; 2]> = Vec::new();
        let mut j: usize = 0;
        while j < x.len()
            invariant
                j <= x.len(),
                self.current_output + x.len() <= usize::MAX,
                queries.len() == j,
                forall|k: int|
                    0 <= k < j ==> (#[trigger] queries[k])@ == output_queries_spec(
                        (self.current_output + k) as u64,
                        x[k].val,
                        self.delta.val,
                    ),
            decreases x.len() - j,
        {
            let i: u64 = (self.current_output + j) as u64;
            let pair = [
                HashQuery { label: x[j].val, tweak: output_tweak(i, 0) },
                HashQuery { label: x[j].val ^ self.delta.val, tweak: output_tweak(i, 1) },
            ];
            assert(pair@ =~= output_queries_spec(i, x[j as int].val, self.delta.val));
            queries.push(pair);
            j += 1;
        }
        Some(queries)
    }

    /// Reveals outputs to the evaluator, in the order of `hashes`: for each
    /// output the hashes of the two labels that [`Self::outputs_queries`]
    /// names go into the circuit.
    pub fn output_evaluator(&mut self, hashes: &[[u128; 2]]) -> (r: Result<(), GarblerError>)
        ensures
            final(self).party() == old(self).party(),
            final(self).generator() == old(self).generator(),
            match r {
                Ok(_) => Self::write_error(old(self).model(), 0, hashes.len() as nat) is None
                    && final(self).model() == old(self).model().run(output_ops(hashes@)),
                Err(e) => Self::write_error(old(self).model(), 0, hashes.len() as nat) == Some(e)
                    && final(self).model() == old(self).model(),
            },
    {
        if self.sent {
            return Err(GarblerError::CircuitSent);
        }
        if hashes.len() > usize::MAX - self.current_output {
            return Err(GarblerError::CounterExhausted);
        }
        let mut j: usize = 0;
        assert(output_ops(hashes@).take(0) =~= Seq::<GateOp>::empty());
        while j < hashes.len()
            invariant
                j <= hashes.len(),
                !self.sent,
                self.party() == old(self).party(),
                self.generator() == old(self).generator(),
                old(self).current_output + hashes.len() <= usize::MAX,
                self.current_output == old(self).current_output + j,
                self.model() == old(self).model().run(output_ops(hashes@).take(j as int)),
            decreases hashes.len() - j,
        {
            let ghost done = output_ops(hashes@).take(j as int);
            let ghost next = output_ops(hashes@).take(j + 1);
            assert(next.drop_last() =~= done);
            assert(next.last() == GateOp::Output { hashes: hashes[j as int]@ });
            self.current_output = self.current_output + 1;
            self.sink.add_block(hashes[j][0]);
            self.sink.add_block(hashes[j][1]);
            j += 1;
        }
        assert(output_ops(hashes@).take(j as int) =~= output_ops(hashes@));
        Ok(())
    }

    /// Completes the circuit and gives what this garbler sends of it to
    /// the evaluator: all its blocks, or their digest. After that nothing
    /// can be added.
    pub fn send_circuit(&mut self) -> (r: Result<Transmission, GarblerError>)
        ensures
            final(self).party() == old(self).party(),
            final(self).generator() == old(self).generator(),
            match r {
                Ok(sent) => {
                    &&& !old(self).model().sent
                    &&& sent@ == old(self).transmission()
                    &&& final(self).model() == old(self).model().after_send()
                },
                Err(e) => {
                    &&& old(self).model().sent
                    &&& e == GarblerError::CircuitSent
                    &&& final(self).model() == old(self).model()
                },
            },
    {
        if self.sent {
            return Err(GarblerError::CircuitSent);
        }
        let mut sink = match self.sink {
            GateSink::Buffer(_) => GateSink::Buffer(Vec::new()),
            GateSink::Hash(_) => GateSink::Hash(hasher_new()),
        };
        std::mem::swap(&mut sink, &mut self.sink);
        self.sent = true;
        Ok(sink.finish())
    }

    /// Reveals outputs to the evaluator, completes the circuit, and gives
    /// what this garbler sends of it. Both garblers then read the bits of
    /// the outputs back with [`Self::output_garbler`].
    pub fn output_all_parties(&mut self, hashes: &[[u128; 2]]) -> (r: Result<
        Transmission,
        GarblerError,
    >)
        ensures
            final(self).party() == old(self).party(),
            final(self).generator() == old(self).generator(),
            match r {
                Ok(sent) => Self::write_error(old(self).model(), 0, hashes.len() as nat) is None
                    && final(self).model() == old(self).model().run(
                    output_ops(hashes@),
                ).after_send() && is_transmission_of(
                    sent@,
                    old(self).party(),
                    old(self).model().run(output_ops(hashes@)).stream,
                ),
                Err(e) => Self::write_error(old(self).model(), 0, hashes.len() as nat) == Some(e)
                    && final(self).model() == old(self).model(),
            },
    {
        match self.output_evaluator(hashes) {
            Ok(_) => {},
            Err(e) => {
                return Err(e);
            },
        }
        proof {
            self.lemma_transmission();
            old(self).model().lemma_run_keeps(output_ops(hashes@));
        }
        self.send_circuit()
    }

    /// Reveals outputs to the evaluator, completes the circuit, and gives
    /// what this garbler sends of it, and whether it is the garbler that
    /// then reads the bits of the outputs back: the first garbler is.
    pub fn output_to_id0_and_id1(&mut self, hashes: &[[u128; 2]]) -> (r: Result<
        (Transmission, bool),
        GarblerError,
    >)
        ensures
            final(self).party() == old(self).party(),
            final(self).generator() == old(self).generator(),
            match r {
                Ok(sent) => Self::write_error(old(self).model(), 0, hashes.len() as nat) is None
                    && final(self).model() == old(self).model().run(
                    output_ops(hashes@),
                ).after_send() && is_transmission_of(
                    sent.0@,
                    old(self).party(),
                    old(self).model().run(output_ops(hashes@)).stream,
                ) && sent.1 == (old(self).party() == PartyID::ID1),
                Err(e) => Self::write_error(old(self).model(), 0, hashes.len() as nat) == Some(e)
                    && final(self).model() == old(self).model(),
            },
    {
        let reads_back = match self.sink {
            GateSink::Buffer(_) => true,
            GateSink::Hash(_) => false,
        };
        match self.output_all_parties(hashes) {
            Ok(sent) => Ok((sent, reads_back)),
            Err(e) => Err(e),
        }
    }

    /// The reason for which the bits of outputs cannot be read off the
    /// blocks received, if there is one. Of several reasons the first in
    /// this order is given.
    pub open spec fn decode_error(
        model: GarblerModel,
        x: Seq<WireMod2>,
        blocks: Seq<[u8; 16]>,
    ) -> Option<GarblerError> {
        if !model.sent {
            Some(GarblerError::CircuitNotSent)
        } else if x.len() > model.outputs {
            Some(GarblerError::OutputNotRevealed)
        } else {
            blocks_error(x, blocks, model.delta)
        }
    }

    /// Reads the bits of the outputs with zero labels `x` off the blocks
    /// that the evaluator sent back, one block for each output.
    pub fn output_garbler(&self, x: &[WireMod2], blocks: &[[u8; 16]]) -> (r: Result<
        Vec<bool>,
        GarblerError,
    >)
        ensures
            match r {
                Ok(bits) => Self::decode_error(self.model(), x@, blocks@) is None && is_decoding(
                    x@,
                    blocks@,
                    self.model().delta,
                    bits@,
                ),
                Err(e) => Self::decode_error(self.model(), x@, blocks@) == Some(e),
            },
    {
        if !self.sent {
            return Err(GarblerError::CircuitNotSent);
        }
        if x.len() > self.current_output {
            return Err(GarblerError::OutputNotRevealed);
        }
        decode_blocks(x, blocks, &self.delta)
    }

    /// What a garbler would send is what its party sends of the bytes that
    /// went into its sink.
    pub proof fn lemma_transmission(&self)
        ensures
            is_transmission_of(self.transmission(), self.party(), self.model().stream),
    {
    }
}

/// `sent` is what the garbler `party` sends of a circuit with the bytes
/// `stream`: the first garbler sends blocks that hold these bytes, the
/// second their SHA3-256 digest.
pub open spec fn is_transmission_of(
    sent: TransmissionView,
    party: PartyID,
    stream: Seq<u8>,
) -> bool {
    match sent {
        TransmissionView::Circuit(blocks) => party == PartyID::ID1 && flatten_blocks(blocks)
            == stream,
        TransmissionView::Digest(digest) => party == PartyID::ID2 && digest == sha3_256(stream),
    }
}

/// The two garblers agree: where both have garbled the same steps under
/// the same offset, the digest that the second sends is the digest of the
/// bytes of the blocks that the first sends.
pub proof fn lemma_garbler_duo_consistent(
    first: Rep3Garbler,
    second: Rep3Garbler,
    delta: u128,
    ops: Seq<GateOp>,
)
    requires
        first.party() == PartyID::ID1,
        second.party() == PartyID::ID2,
        first.model() == GarblerModel::initial(delta).run(ops),
        second.model() == GarblerModel::initial(delta).run(ops),
    ensures
        first.transmission() is Circuit,
        second.transmission() is Digest,
        second.transmission()->Digest_0 == sha3_256(
            flatten_blocks(first.transmission()->Circuit_0),
        ),
{
    first.lemma_transmission();
    second.lemma_transmission();
}

} // verus!
