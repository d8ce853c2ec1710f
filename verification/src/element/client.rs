//! The elements that the server sends to the client once connected to the
//! base application.
use vstd::prelude::*;

use super::{ElementLength, EmptyElement, SimpleElement};
use crate::codec::{
    le_bytes, le_value, lemma_le_bytes_len, lemma_le_value_bound, lemma_le_value_of_bytes,
    lemma_pow256_values,
    write_blob, write_u16, write_u32, write_u8, ByteReader, ElementError,
};

verus! {

/// The number that the four little-endian bytes of `input` from `start` on
/// stand for.
pub open spec fn u32_at(input: Seq<u8>, start: int) -> u32 {
    le_value(input.subrange(start, start + 4)) as u32
}

/// A value `v` written on `n` little-endian bytes in front of `rest` is read
/// back from the first `n` bytes, and `rest` follows them.
pub proof fn lemma_le_prefix(v: nat, n: nat, rest: Seq<u8>)
    requires
        n == 1 || n == 2 || n == 4,
        v < crate::codec::pow256(n),
    ensures
        (le_bytes(v, n) + rest).take(n as int) == le_bytes(v, n),
        (le_bytes(v, n) + rest).skip(n as int) == rest,
        le_value((le_bytes(v, n) + rest).take(n as int)) == v,
{
    lemma_le_bytes_len(v, n);
    assert((le_bytes(v, n) + rest).take(n as int) =~= le_bytes(v, n));
    assert((le_bytes(v, n) + rest).skip(n as int) =~= rest);
    lemma_le_value_of_bytes(v, n);
}

/// Reading a `u32` from `input`, then one from what is left, and so on,
/// reads the four bytes from `start` on.
proof fn lemma_skip_take(input: Seq<u8>, start: int)
    requires
        0 <= start,
        start + 4 <= input.len(),
    ensures
        input.skip(start).take(4) == input.subrange(start, start + 4),
        input.skip(start).skip(4) == input.skip(start + 4),
{
    assert(input.skip(start).take(4) =~= input.subrange(start, start + 4));
    assert(input.skip(start).skip(4) =~= input.skip(start + 4));
}

/// The server informs us how frequently it is going to send to us.
#[derive(Debug, Clone, Copy, PartialEq, Eq, Structural)]
pub struct UpdateFrequencyNotification {
    /// The frequency in hertz.
    pub frequency: u8,
}

impl View for UpdateFrequencyNotification {
    type V = UpdateFrequencyNotification;

    open spec fn view(&self) -> UpdateFrequencyNotification {
        *self
    }
}

impl UpdateFrequencyNotification {
    pub const ID: u8 = 0x02;
}

impl SimpleElement for UpdateFrequencyNotification {
    open spec fn spec_id() -> u8 {
        0x02
    }

    fn id() -> (r: u8) {
        0x02
    }

    open spec fn spec_len() -> ElementLength {
        ElementLength::Fixed(7)
    }

    fn len() -> (r: ElementLength) {
        ElementLength::Fixed(7)
    }

    open spec fn spec_content(&self) -> Seq<u8> {
        seq![self.frequency]
    }

    open spec fn spec_parse(input: Seq<u8>, len: usize) -> Option<(Self, nat)> {
        if input.len() >= 1 {
            Some((UpdateFrequencyNotification { frequency: input[0] }, 1))
        } else {
            None
        }
    }

    fn encode(&self, write: &mut Vec<u8>) -> (r: Result<(), ElementError>) {
        write_u8(write, self.frequency);
        Ok(())
    }

    fn decode(read: &mut ByteReader, _len: usize) -> (r: Result<Self, ElementError>) {
        match read.read_u8() {
            Ok(frequency) => Ok(Self { frequency }),
            Err(e) => Err(e),
        }
    }

    proof fn lemma_content_roundtrip(&self) {
    }
}

/// The server informs us of the current (server) game time.
#[derive(Debug, Clone, Copy, PartialEq, Eq, Structural)]
pub struct SetGameTime {
    /// The server game time.
    pub game_time: u32,
}

impl View for SetGameTime {
    type V = SetGameTime;

    open spec fn view(&self) -> SetGameTime {
        *self
    }
}

impl SetGameTime {
    pub const ID: u8 = 0x03;
}

impl SimpleElement for SetGameTime {
    open spec fn spec_id() -> u8 {
        0x03
    }

    fn id() -> (r: u8) {
        0x03
    }

    open spec fn spec_len() -> ElementLength {
        ElementLength::Fixed(4)
    }

    fn len() -> (r: ElementLength) {
        ElementLength::Fixed(4)
    }

    open spec fn spec_content(&self) -> Seq<u8> {
        le_bytes(self.game_time as nat, 4)
    }

    open spec fn spec_parse(input: Seq<u8>, len: usize) -> Option<(Self, nat)> {
        if input.len() >= 4 {
            Some((SetGameTime { game_time: u32_at(input, 0) }, 4))
        } else {
            None
        }
    }

    fn encode(&self, write: &mut Vec<u8>) -> (r: Result<(), ElementError>) {
        write_u32(write, self.game_time);
        Ok(())
    }

    fn decode(read: &mut ByteReader, _len: usize) -> (r: Result<Self, ElementError>) {
        proof {
            if read@.len() >= 4 {
                assert(read@.take(4) =~= read@.subrange(0, 4));
            }
        }
        match read.read_u32() {
            Ok(game_time) => Ok(Self { game_time }),
            Err(e) => Err(e),
        }
    }

    proof fn lemma_content_roundtrip(&self) {
        lemma_pow256_values();
        lemma_le_bytes_len(self.game_time as nat, 4);
        lemma_le_prefix(self.game_time as nat, 4, Seq::empty());
        assert(self.spec_content() + Seq::<u8>::empty() =~= self.spec_content());
        assert(self.spec_content().subrange(0, 4) =~= self.spec_content().take(4));
    }
}

/// The server wants to reset the entities in the Area of Interest (AoI).
#[derive(Debug, Clone, Copy, PartialEq, Eq, Structural)]
pub struct ResetEntities {
    pub keep_player_on_base: bool,
}

impl View for ResetEntities {
    type V = ResetEntities;

    open spec fn view(&self) -> ResetEntities {
        *self
    }
}

impl ResetEntities {
    pub const ID: u8 = 0x04;
}

impl SimpleElement for ResetEntities {
    open spec fn spec_id() -> u8 {
        0x04
    }

    fn id() -> (r: u8) {
        0x04
    }

    open spec fn spec_len() -> ElementLength {
        ElementLength::Fixed(1)
    }

    fn len() -> (r: ElementLength) {
        ElementLength::Fixed(1)
    }

    /// The flag is written as one byte, 1 for true and 0 for false.
    open spec fn spec_content(&self) -> Seq<u8> {
        seq![if self.keep_player_on_base { 1u8 } else { 0u8 }]
    }

    /// Any byte but 0 reads as true.
    open spec fn spec_parse(input: Seq<u8>, len: usize) -> Option<(Self, nat)> {
        if input.len() >= 1 {
            Some((ResetEntities { keep_player_on_base: input[0] != 0 }, 1))
        } else {
            None
        }
    }

    fn encode(&self, write: &mut Vec<u8>) -> (r: Result<(), ElementError>) {
        write_u8(write, if self.keep_player_on_base { 1 } else { 0 });
        Ok(())
    }

    fn decode(read: &mut ByteReader, _len: usize) -> (r: Result<Self, ElementError>) {
        match read.read_u8() {
            Ok(b) => Ok(Self { keep_player_on_base: b != 0 }),
            Err(e) => Err(e),
        }
    }

    proof fn lemma_content_roundtrip(&self) {
    }
}

/// Sent from the base when a player should be created: the entity id with
/// its type, then the data that initializes its properties (for example the
/// `Login` entity receives the account UID).
#[derive(Debug)]
pub struct CreateBasePlayer {
    pub entity_id: u32,
    pub entity_type: u16,
    pub entity_data: Vec<u8>,
}

impl View for CreateBasePlayer {
    type V = (u32, u16, Seq<u8>);

    open spec fn view(&self) -> (u32, u16, Seq<u8>) {
        (self.entity_id, self.entity_type, self.entity_data@)
    }
}

impl CreateBasePlayer {
    pub const ID: u8 = 0x05;
}

impl SimpleElement for CreateBasePlayer {
    open spec fn spec_id() -> u8 {
        0x05
    }

    fn id() -> (r: u8) {
        0x05
    }

    open spec fn spec_len() -> ElementLength {
        ElementLength::Variable16
    }

    fn len() -> (r: ElementLength) {
        ElementLength::Variable16
    }

    open spec fn spec_content(&self) -> Seq<u8> {
        le_bytes(self.entity_id as nat, 4) + le_bytes(self.entity_type as nat, 2)
            + self.entity_data@
    }

    /// The id and the type take six bytes; the data is the rest of the
    /// element's length.
    open spec fn spec_parse(input: Seq<u8>, len: usize) -> Option<((u32, u16, Seq<u8>), nat)> {
        if input.len() < 6 || input.len() - 6 < len - 6 {
            None
        } else {
            Some(
                (
                    (
                        u32_at(input, 0),
                        le_value(input.subrange(4, 6)) as u16,
                        input.subrange(6, len as int),
                    ),
                    len as nat,
                ),
            )
        }
    }

    fn encode(&self, write: &mut Vec<u8>) -> (r: Result<(), ElementError>) {
        let ghost start = write@;
        write_u32(write, self.entity_id);
        write_u16(write, self.entity_type);
        write_blob(write, self.entity_data.as_slice());
        assert(write@ =~= start + self.spec_content());
        Ok(())
    }

    fn decode(read: &mut ByteReader, len: usize) -> (r: Result<Self, ElementError>) {
        let ghost input = read@;
        proof {
            if input.len() >= 4 {
                lemma_skip_take(input, 0);
                assert(input.skip(0) =~= input);
            }
            if input.len() >= 6 {
                assert(input.skip(4).take(2) =~= input.subrange(4, 6));
                assert(input.skip(4).skip(2) =~= input.skip(6));
            }
        }
        let entity_id = match read.read_u32() {
            Ok(v) => v,
            Err(e) => {
                return Err(e);
            },
        };
        let entity_type = match read.read_u16() {
            Ok(v) => v,
            Err(e) => {
                return Err(e);
            },
        };
        let entity_data = match read.read_blob(len - 6) {
            Ok(v) => v,
            Err(e) => {
                return Err(e);
            },
        };
        proof {
            assert(input.skip(6).take(len - 6) =~= input.subrange(6, len as int));
            assert(input.skip(6).skip(len - 6) =~= input.skip(len as int));
        }
        Ok(Self { entity_id, entity_type, entity_data })
    }

    proof fn lemma_content_roundtrip(&self) {
        lemma_pow256_values();
        let data = self.entity_data@;
        let content = self.spec_content();
        let tail = le_bytes(self.entity_type as nat, 2) + data;
        lemma_le_bytes_len(self.entity_id as nat, 4);
        lemma_le_bytes_len(self.entity_type as nat, 2);
        lemma_le_prefix(self.entity_id as nat, 4, tail);
        lemma_le_prefix(self.entity_type as nat, 2, data);
        assert(content =~= le_bytes(self.entity_id as nat, 4) + tail);
        assert(content.subrange(0, 4) =~= content.take(4));
        assert(content.subrange(4, 6) =~= tail.take(2));
        assert(content.subrange(6, content.len() as int) =~= data);
    }
}

/// It is used as a timestamp for the elements in a bundle.
#[derive(Debug, Clone, Copy, PartialEq, Eq, Structural)]
pub struct TickSync {
    pub tick: u8,
}

impl View for TickSync {
    type V = TickSync;

    open spec fn view(&self) -> TickSync {
        *self
    }
}

impl TickSync {
    pub const ID: u8 = 0x13;
}

impl SimpleElement for TickSync {
    open spec fn spec_id() -> u8 {
        0x13
    }

    fn id() -> (r: u8) {
        0x13
    }

    open spec fn spec_len() -> ElementLength {
        ElementLength::Fixed(1)
    }

    fn len() -> (r: ElementLength) {
        ElementLength::Fixed(1)
    }

    open spec fn spec_content(&self) -> Seq<u8> {
        seq![self.tick]
    }

    open spec fn spec_parse(input: Seq<u8>, len: usize) -> Option<(Self, nat)> {
        if input.len() >= 1 {
            Some((TickSync { tick: input[0] }, 1))
        } else {
            None
        }
    }

    fn encode(&self, write: &mut Vec<u8>) -> (r: Result<(), ElementError>) {
        write_u8(write, self.tick);
        Ok(())
    }

    fn decode(read: &mut ByteReader, _len: usize) -> (r: Result<Self, ElementError>) {
        match read.read_u8() {
            Ok(tick) => Ok(Self { tick }),
            Err(e) => Err(e),
        }
    }

    proof fn lemma_content_roundtrip(&self) {
    }
}

/// Sent by the server to inform that subsequent elements will target the
/// player entity.
#[derive(Debug, Clone, Copy, PartialEq, Eq, Structural)]
pub struct SelectPlayerEntity;

impl View for SelectPlayerEntity {
    type V = SelectPlayerEntity;

    open spec fn view(&self) -> SelectPlayerEntity {
        *self
    }
}

impl Default for SelectPlayerEntity {
    fn default() -> (r: Self)
        ensures
            r == SelectPlayerEntity,
    {
        SelectPlayerEntity
    }
}

impl SelectPlayerEntity {
    pub const ID: u8 = 0x1A;
}

impl EmptyElement for SelectPlayerEntity {
    open spec fn spec_id() -> u8 {
        0x1A
    }

    fn id() -> (r: u8) {
        0x1A
    }

    open spec fn spec_len() -> ElementLength {
        ElementLength::Fixed(0)
    }

    fn len() -> (r: ElementLength) {
        ElementLength::zero()
    }

    proof fn lemma_single_value(a: &Self, b: &Self) {
    }
}

/// A vector of three single-precision floats, each held as its IEEE-754
/// bit pattern, which is what the protocol carries.
#[derive(Debug, Clone, Copy, PartialEq, Eq, Structural)]
pub struct Vec3Bits {
    pub x: u32,
    pub y: u32,
    pub z: u32,
}

/// The twelve bytes of a vector: its three floats, little-endian.
pub open spec fn vec3_bytes(v: Vec3Bits) -> Seq<u8> {
    le_bytes(v.x as nat, 4) + le_bytes(v.y as nat, 4) + le_bytes(v.z as nat, 4)
}

/// The bytes from `start` on, read as the four-byte value `v`, give `v`.
pub proof fn lemma_u32_at_concat(a: Seq<u8>, v: u32, b: Seq<u8>)
    ensures
        u32_at(a + le_bytes(v as nat, 4) + b, a.len() as int) == v,
{
    lemma_pow256_values();
    lemma_le_bytes_len(v as nat, 4);
    assert((a + le_bytes(v as nat, 4) + b).subrange(a.len() as int, a.len() + 4int) =~= le_bytes(
        v as nat,
        4,
    ));
    lemma_le_value_of_bytes(v as nat, 4);
}

/// This is when an update is being forced back for an (ordinarily) client
/// controlled entity, including for the player: usually a physics
/// correction from the server, but it could be for any reason decided by
/// the server (e.g. server-initiated teleport).
#[derive(Debug, Clone, Copy, PartialEq, Eq, Structural)]
pub struct ForcedPosition {
    pub entity_id: u32,
    pub space_id: u32,
    pub vehicle_entity_id: u32,
    pub position: Vec3Bits,
    pub direction: Vec3Bits,
}

impl View for ForcedPosition {
    type V = ForcedPosition;

    open spec fn view(&self) -> ForcedPosition {
        *self
    }
}

impl ForcedPosition {
    pub const ID: u8 = 0x1B;
}

/// Appends a vector: its three floats, little-endian.
fn write_vec3(write: &mut Vec<u8>, v: Vec3Bits)
    ensures
        final(write)@ == old(write)@ + vec3_bytes(v),
{
    let ghost start = write@;
    write_u32(write, v.x);
    write_u32(write, v.y);
    write_u32(write, v.z);
    assert(write@ =~= start + vec3_bytes(v));
}

/// Reads the next four bytes of `read` as a `u32`, knowing that they are
/// the bytes from `at` on of `input`.
fn read_u32_at(read: &mut ByteReader, Ghost(input): Ghost<Seq<u8>>, Ghost(at): Ghost<int>) -> (r:
    Result<u32, ElementError>)
    requires
        0 <= at <= input.len(),
        old(read)@ == input.skip(at),
    ensures
        at + 4 <= input.len() ==> r == Ok::<u32, ElementError>(u32_at(input, at)) && final(read)@
            == input.skip(at + 4),
        at + 4 > input.len() ==> r == Err::<u32, ElementError>(ElementError::UnexpectedEof),
{
    proof {
        if at + 4 <= input.len() {
            lemma_skip_take(input, at);
        }
    }
    read.read_u32()
}

impl SimpleElement for ForcedPosition {
    open spec fn spec_id() -> u8 {
        0x1B
    }

    fn id() -> (r: u8) {
        0x1B
    }

    /// The content always takes 36 bytes.
    open spec fn spec_len() -> ElementLength {
        ElementLength::Fixed(36)
    }

    fn len() -> (r: ElementLength) {
        ElementLength::Fixed(36)
    }

    open spec fn spec_content(&self) -> Seq<u8> {
        le_bytes(self.entity_id as nat, 4) + le_bytes(self.space_id as nat, 4) + le_bytes(
            self.vehicle_entity_id as nat,
            4,
        ) + vec3_bytes(self.position) + vec3_bytes(self.direction)
    }

    open spec fn spec_parse(input: Seq<u8>, len: usize) -> Option<(Self, nat)> {
        if input.len() >= 36 {
            Some(
                (
                    ForcedPosition {
                        entity_id: u32_at(input, 0),
                        space_id: u32_at(input, 4),
                        vehicle_entity_id: u32_at(input, 8),
                        position: Vec3Bits {
                            x: u32_at(input, 12),
                            y: u32_at(input, 16),
                            z: u32_at(input, 20),
                        },
                        direction: Vec3Bits {
                            x: u32_at(input, 24),
                            y: u32_at(input, 28),
                            z: u32_at(input, 32),
                        },
                    },
                    36,
                ),
            )
        } else {
            None
        }
    }

    fn encode(&self, write: &mut Vec<u8>) -> (r: Result<(), ElementError>) {
        let ghost start = write@;
        write_u32(write, self.entity_id);
        write_u32(write, self.space_id);
        write_u32(write, self.vehicle_entity_id);
        write_vec3(write, self.position);
        write_vec3(write, self.direction);
        assert(write@ =~= start + self.spec_content());
        Ok(())
    }

    fn decode(read: &mut ByteReader, _len: usize) -> (r: Result<Self, ElementError>) {
        let ghost input = read@;
        assert(input.skip(0) =~= input);
        let entity_id = match read_u32_at(read, Ghost(input), Ghost(0)) {
            Ok(v) => v,
            Err(e) => {
                return Err(e);
            },
        };
        let space_id = match read_u32_at(read, Ghost(input), Ghost(4)) {
            Ok(v) => v,
            Err(e) => {
                return Err(e);
            },
        };
        let vehicle_entity_id = match read_u32_at(read, Ghost(input), Ghost(8)) {
            Ok(v) => v,
            Err(e) => {
                return Err(e);
            },
        };
        let px = match read_u32_at(read, Ghost(input), Ghost(12)) {
            Ok(v) => v,
            Err(e) => {
                return Err(e);
            },
        };
        let py = match read_u32_at(read, Ghost(input), Ghost(16)) {
            Ok(v) => v,
            Err(e) => {
                return Err(e);
            },
        };
        let pz = match read_u32_at(read, Ghost(input), Ghost(20)) {
            Ok(v) => v,
            Err(e) => {
                return Err(e);
            },
        };
        let dx = match read_u32_at(read, Ghost(input), Ghost(24)) {
            Ok(v) => v,
            Err(e) => {
                return Err(e);
            },
        };
        let dy = match read_u32_at(read, Ghost(input), Ghost(28)) {
            Ok(v) => v,
            Err(e) => {
                return Err(e);
            },
        };
        let dz = match read_u32_at(read, Ghost(input), Ghost(32)) {
            Ok(v) => v,
            Err(e) => {
                return Err(e);
            },
        };
        Ok(Self {
            entity_id,
            space_id,
            vehicle_entity_id,
            position: Vec3Bits { x: px, y: py, z: pz },
            direction: Vec3Bits { x: dx, y: dy, z: dz },
        })
    }

    proof fn lemma_content_roundtrip(&self) {
        let c0 = le_bytes(self.entity_id as nat, 4);
        let c1 = le_bytes(self.space_id as nat, 4);
        let c2 = le_bytes(self.vehicle_entity_id as nat, 4);
        let c3 = le_bytes(self.position.x as nat, 4);
        let c4 = le_bytes(self.position.y as nat, 4);
        let c5 = le_bytes(self.position.z as nat, 4);
        let c6 = le_bytes(self.direction.x as nat, 4);
        let c7 = le_bytes(self.direction.y as nat, 4);
        let c8 = le_bytes(self.direction.z as nat, 4);
        lemma_le_bytes_len(self.entity_id as nat, 4);
        lemma_le_bytes_len(self.space_id as nat, 4);
        lemma_le_bytes_len(self.vehicle_entity_id as nat, 4);
        lemma_le_bytes_len(self.position.x as nat, 4);
        lemma_le_bytes_len(self.position.y as nat, 4);
        lemma_le_bytes_len(self.position.z as nat, 4);
        lemma_le_bytes_len(self.direction.x as nat, 4);
        lemma_le_bytes_len(self.direction.y as nat, 4);
        lemma_le_bytes_len(self.direction.z as nat, 4);
        let content = self.spec_content();
        let e = Seq::<u8>::empty();
        assert(content =~= e + c0 + (c1 + c2 + c3 + c4 + c5 + c6 + c7 + c8));
        lemma_u32_at_concat(e, self.entity_id, c1 + c2 + c3 + c4 + c5 + c6 + c7 + c8);
        assert(content =~= c0 + c1 + (c2 + c3 + c4 + c5 + c6 + c7 + c8));
        lemma_u32_at_concat(c0, self.space_id, c2 + c3 + c4 + c5 + c6 + c7 + c8);
        assert(content =~= (c0 + c1) + c2 + (c3 + c4 + c5 + c6 + c7 + c8));
        lemma_u32_at_concat(c0 + c1, self.vehicle_entity_id, c3 + c4 + c5 + c6 + c7 + c8);
        assert(content =~= (c0 + c1 + c2) + c3 + (c4 + c5 + c6 + c7 + c8));
        lemma_u32_at_concat(c0 + c1 + c2, self.position.x, c4 + c5 + c6 + c7 + c8);
        assert(content =~= (c0 + c1 + c2 + c3) + c4 + (c5 + c6 + c7 + c8));
        lemma_u32_at_concat(c0 + c1 + c2 + c3, self.position.y, c5 + c6 + c7 + c8);
        assert(content =~= (c0 + c1 + c2 + c3 + c4) + c5 + (c6 + c7 + c8));
        lemma_u32_at_concat(c0 + c1 + c2 + c3 + c4, self.position.z, c6 + c7 + c8);
        assert(content =~= (c0 + c1 + c2 + c3 + c4 + c5) + c6 + (c7 + c8));
        lemma_u32_at_concat(c0 + c1 + c2 + c3 + c4 + c5, self.direction.x, c7 + c8);
        assert(content =~= (c0 + c1 + c2 + c3 + c4 + c5 + c6) + c7 + c8);
        lemma_u32_at_concat(c0 + c1 + c2 + c3 + c4 + c5 + c6, self.direction.y, c8);
        assert(content =~= (c0 + c1 + c2 + c3 + c4 + c5 + c6 + c7) + c8 + e);
        lemma_u32_at_concat(c0 + c1 + c2 + c3 + c4 + c5 + c6 + c7, self.direction.z, e);
    }
}

/// A call to a selected entity's method; its element ids form a range.
#[derive(Debug, Clone, Copy, PartialEq, Eq, Structural)]
pub struct EntityMethod {}

impl EntityMethod {
    pub const FIRST_ID: u8 = 0x4E;

    pub const LAST_ID: u8 = 0xA6;
}

/// Setting a selected entity's property value; its element ids form a
/// range.
#[derive(Debug, Clone, Copy, PartialEq, Eq, Structural)]
pub struct EntityProperty {}

impl EntityProperty {
    pub const FIRST_ID: u8 = 0xA7;

    pub const LAST_ID: u8 = 0xFE;
}

/// An avatar update.
#[derive(Debug, Clone, Copy, PartialEq, Eq, Structural)]
pub struct AvatarUpdate {
    pub id: AvatarUpdateId,
    /// Position X, Y, Z.
    pub pos: Vec3Bits,
    /// Direction Yaw, Pitch, Roll.
    pub dir: Vec3Bits,
}

/// The entity ID for an avatar update.
#[derive(Debug, Clone, Copy, PartialEq, Eq, Structural)]
pub enum AvatarUpdateId {
    /// The entity ID is given directly without aliasing.
    NoAlias(u32),
    /// An alias for the entity ID, referring to an internal table of alias.
    Alias(u8),
}

/// The four bytes of `input` from `start` on, read as a little-endian `u32`.
proof fn lemma_u32_at_value(input: Seq<u8>, start: int)
    requires
        0 <= start,
        start + 4 <= input.len(),
    ensures
        u32_at(input, start) as nat == le_value(input.subrange(start, start + 4)),
{
    lemma_pow256_values();
    lemma_le_value_bound(input.subrange(start, start + 4));
}

/// An update frequency notification is one byte, the frequency; decoding
/// takes the frequency from the first byte and consumes that byte only,
/// whatever the element's length. Its id is 0x02 and its kind of length is
/// fixed 7.
pub proof fn lemma_update_frequency_layout(
    e: UpdateFrequencyNotification,
    input: Seq<u8>,
    len: usize,
)
    ensures
        e.spec_content() == seq![e.frequency],
        <UpdateFrequencyNotification as SimpleElement>::spec_id() == 0x02,
        <UpdateFrequencyNotification as SimpleElement>::spec_len() == ElementLength::Fixed(7),
        input.len() >= 1 ==> UpdateFrequencyNotification::spec_parse(input, len) == Some(
            (UpdateFrequencyNotification { frequency: input[0] }, 1nat),
        ),
        input.len() == 0 ==> UpdateFrequencyNotification::spec_parse(input, len) is None,
{
}

/// A game time is its four little-endian bytes; decoding reads them from
/// the first four bytes of the input and consumes those only. Its id is 0x03
/// and its kind of length is fixed 4.
pub proof fn lemma_set_game_time_layout(e: SetGameTime, input: Seq<u8>, len: usize)
    ensures
        e.spec_content() == le_bytes(e.game_time as nat, 4),
        <SetGameTime as SimpleElement>::spec_id() == 0x03,
        <SetGameTime as SimpleElement>::spec_len() == ElementLength::Fixed(4),
        input.len() >= 4 ==> (SetGameTime::spec_parse(input, len) matches Some((g, n)) && n == 4
            && g.game_time as nat == le_value(input.take(4))),
        input.len() < 4 ==> SetGameTime::spec_parse(input, len) is None,
{
    if input.len() >= 4 {
        lemma_u32_at_value(input, 0);
        assert(input.subrange(0, 4) =~= input.take(4));
    }
}

/// A reset is one byte, 1 for keeping the player on the base and 0 for not;
/// decoding takes the first byte, any byte but 0 meaning true, and consumes
/// that byte only. Its id is 0x04 and its kind of length is fixed 1.
pub proof fn lemma_reset_entities_layout(e: ResetEntities, input: Seq<u8>, len: usize)
    ensures
        e.spec_content().len() == 1,
        e.spec_content()[0] == (if e.keep_player_on_base {
            1u8
        } else {
            0u8
        }),
        <ResetEntities as SimpleElement>::spec_id() == 0x04,
        <ResetEntities as SimpleElement>::spec_len() == ElementLength::Fixed(1),
        input.len() >= 1 ==> ResetEntities::spec_parse(input, len) == Some(
            (ResetEntities { keep_player_on_base: input[0] != 0 }, 1nat),
        ),
        input.len() == 0 ==> ResetEntities::spec_parse(input, len) is None,
{
}

/// A tick sync is one byte, the tick; decoding takes the tick from the first
/// byte and consumes that byte only. Its id is 0x13 and its kind of length
/// is fixed 1.
pub proof fn lemma_tick_sync_layout(e: TickSync, input: Seq<u8>, len: usize)
    ensures
        e.spec_content() == seq![e.tick],
        <TickSync as SimpleElement>::spec_id() == 0x13,
        <TickSync as SimpleElement>::spec_len() == ElementLength::Fixed(1),
        input.len() >= 1 ==> TickSync::spec_parse(input, len) == Some(
            (TickSync { tick: input[0] }, 1nat),
        ),
        input.len() == 0 ==> TickSync::spec_parse(input, len) is None,
{
}

/// Selecting the player entity has no content and consumes nothing. Its id
/// is 0x1A and its kind of length is fixed 0.
pub proof fn lemma_select_player_entity_layout(e: SelectPlayerEntity, input: Seq<u8>, len: usize)
    ensures
        e.spec_content() == Seq::<u8>::empty(),
        <SelectPlayerEntity as SimpleElement>::spec_id() == 0x1A,
        <SelectPlayerEntity as SimpleElement>::spec_len() == ElementLength::Fixed(0),
        SelectPlayerEntity::spec_parse(input, len) == Some((SelectPlayerEntity, 0nat)),
{
}

/// A base player is its entity id (four little-endian bytes), its entity
/// type (two) and then its data. Decoding takes the id from bytes 0..4, the
/// type from bytes 4..6 and the data from byte 6 to the element's length,
/// consuming the whole length; it fails where the input is shorter than six
/// bytes or than the length. Its id is 0x05 and its kind of length is
/// `Variable16`.
pub proof fn lemma_create_base_player_layout(e: CreateBasePlayer, input: Seq<u8>, len: usize)
    ensures
        e.spec_content() == le_bytes(e.entity_id as nat, 4) + le_bytes(e.entity_type as nat, 2)
            + e.entity_data@,
        <CreateBasePlayer as SimpleElement>::spec_id() == 0x05,
        <CreateBasePlayer as SimpleElement>::spec_len() == ElementLength::Variable16,
        6 <= len <= input.len() ==> (CreateBasePlayer::spec_parse(input, len) matches Some(
            (v, n),
        ) && n == len && v.0 as nat == le_value(input.take(4)) && v.1 as nat == le_value(
            input.subrange(4, 6),
        ) && v.2 == input.subrange(6, len as int)),
        input.len() < 6 ==> CreateBasePlayer::spec_parse(input, len) is None,
        6 <= input.len() < len ==> CreateBasePlayer::spec_parse(input, len) is None,
{
    if 6 <= len <= input.len() {
        lemma_u32_at_value(input, 0);
        assert(input.subrange(0, 4) =~= input.take(4));
        lemma_pow256_values();
        lemma_le_value_bound(input.subrange(4, 6));
    }
}

/// A forced position is its nine four-byte fields in order, each
/// little-endian: entity id, space id, vehicle entity id, then the position
/// and the direction, each written x, y, z. Decoding takes each field from
/// the same four bytes and consumes 36 bytes. Its id is 0x1B.
pub proof fn lemma_forced_position_layout(p: ForcedPosition, input: Seq<u8>, len: usize)
    ensures
        p.spec_content().len() == 36,
        p.spec_content().subrange(0, 4) == le_bytes(p.entity_id as nat, 4),
        p.spec_content().subrange(4, 8) == le_bytes(p.space_id as nat, 4),
        p.spec_content().subrange(8, 12) == le_bytes(p.vehicle_entity_id as nat, 4),
        p.spec_content().subrange(12, 16) == le_bytes(p.position.x as nat, 4),
        p.spec_content().subrange(16, 20) == le_bytes(p.position.y as nat, 4),
        p.spec_content().subrange(20, 24) == le_bytes(p.position.z as nat, 4),
        p.spec_content().subrange(24, 28) == le_bytes(p.direction.x as nat, 4),
        p.spec_content().subrange(28, 32) == le_bytes(p.direction.y as nat, 4),
        p.spec_content().subrange(32, 36) == le_bytes(p.direction.z as nat, 4),
        <ForcedPosition as SimpleElement>::spec_id() == 0x1B,
        input.len() >= 36 ==> (ForcedPosition::spec_parse(input, len) matches Some((q, n)) && n
            == 36 && q.entity_id as nat == le_value(input.subrange(0, 4)) && q.space_id as nat
            == le_value(input.subrange(4, 8)) && q.vehicle_entity_id as nat == le_value(
            input.subrange(8, 12),
        ) && q.position.x as nat == le_value(input.subrange(12, 16)) && q.position.y as nat
            == le_value(input.subrange(16, 20)) && q.position.z as nat == le_value(
            input.subrange(20, 24),
        ) && q.direction.x as nat == le_value(input.subrange(24, 28)) && q.direction.y as nat
            == le_value(input.subrange(28, 32)) && q.direction.z as nat == le_value(
            input.subrange(32, 36),
        )),
        input.len() < 36 ==> ForcedPosition::spec_parse(input, len) is None,
{
    let c = p.spec_content();
    lemma_le_bytes_len(p.entity_id as nat, 4);
    lemma_le_bytes_len(p.space_id as nat, 4);
    lemma_le_bytes_len(p.vehicle_entity_id as nat, 4);
    lemma_le_bytes_len(p.position.x as nat, 4);
    lemma_le_bytes_len(p.position.y as nat, 4);
    lemma_le_bytes_len(p.position.z as nat, 4);
    lemma_le_bytes_len(p.direction.x as nat, 4);
    lemma_le_bytes_len(p.direction.y as nat, 4);
    lemma_le_bytes_len(p.direction.z as nat, 4);
    assert(c.subrange(0, 4) =~= le_bytes(p.entity_id as nat, 4));
    assert(c.subrange(4, 8) =~= le_bytes(p.space_id as nat, 4));
    assert(c.subrange(8, 12) =~= le_bytes(p.vehicle_entity_id as nat, 4));
    assert(c.subrange(12, 16) =~= le_bytes(p.position.x as nat, 4));
    assert(c.subrange(16, 20) =~= le_bytes(p.position.y as nat, 4));
    assert(c.subrange(20, 24) =~= le_bytes(p.position.z as nat, 4));
    assert(c.subrange(24, 28) =~= le_bytes(p.direction.x as nat, 4));
    assert(c.subrange(28, 32) =~= le_bytes(p.direction.y as nat, 4));
    assert(c.subrange(32, 36) =~= le_bytes(p.direction.z as nat, 4));
    if input.len() >= 36 {
        lemma_u32_at_value(input, 0);
        lemma_u32_at_value(input, 4);
        lemma_u32_at_value(input, 8);
        lemma_u32_at_value(input, 12);
        lemma_u32_at_value(input, 16);
        lemma_u32_at_value(input, 20);
        lemma_u32_at_value(input, 24);
        lemma_u32_at_value(input, 28);
        lemma_u32_at_value(input, 32);
    }
}

} // verus!
