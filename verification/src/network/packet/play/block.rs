//! Block changes, block entities and block actions.
use vstd::prelude::*;

use crate::network::packet::play::Position;
use crate::utils::fields::{dec2, dec2_left, dec3, dec3_left, lemma_dec2_roundtrip};
use crate::utils::varint::lemma_varint_one_byte;
use crate::utils::{ClientboundPacketTrait, CodecError, PacketCodec};

verus! {

/// The server has applied the block changes up to a sequence number.
pub struct AcknowledgeBlockChange {
    pub sequence_id: i32,
}

impl ClientboundPacketTrait for AcknowledgeBlockChange {
    type Model = i32;

    open spec fn model(&self) -> i32 {
        self.sequence_id.model()
    }

    open spec fn spec_id() -> i32 {
        0x04
    }

    open spec fn spec_decode(s: Seq<u8>) -> Result<(i32, Seq<u8>), CodecError> {
        <i32 as PacketCodec>::spec_decode(s)
    }

    open spec fn spec_decode_left(s: Seq<u8>) -> Seq<u8> {
        <i32 as PacketCodec>::spec_decode_left(s)
    }

    fn packet_id(&self) -> (r: i32) {
        0x04
    }

    fn decode(buf: &mut &[u8]) -> (r: Result<AcknowledgeBlockChange, CodecError>) {
        let sequence_id = match i32::decode(buf) {
            Ok(v) => v,
            Err(e) => return Err(e),
        };
        Ok(AcknowledgeBlockChange { sequence_id })
    }
}

/// How far a block is broken, from 0 to 9.
pub struct SetBlockDestroyStage {
    pub entity_id: i32,
    pub location: Position,
    pub destroy_stage: u8,
}

impl ClientboundPacketTrait for SetBlockDestroyStage {
    type Model = (i32, <Position as PacketCodec>::Model, u8);

    open spec fn model(&self) -> (i32, <Position as PacketCodec>::Model, u8) {
        (self.entity_id.model(), self.location.model(), self.destroy_stage.model())
    }

    open spec fn spec_id() -> i32 {
        0x05
    }

    open spec fn spec_decode(s: Seq<u8>) -> Result<(Self::Model, Seq<u8>), CodecError> {
        dec3::<i32, Position, u8>(s)
    }

    open spec fn spec_decode_left(s: Seq<u8>) -> Seq<u8> {
        dec3_left::<i32, Position, u8>(s)
    }

    fn packet_id(&self) -> (r: i32) {
        0x05
    }

    fn decode(buf: &mut &[u8]) -> (r: Result<SetBlockDestroyStage, CodecError>) {
        let entity_id = match i32::decode(buf) {
            Ok(v) => v,
            Err(e) => return Err(e),
        };
        let location = match Position::decode(buf) {
            Ok(v) => v,
            Err(e) => return Err(e),
        };
        let destroy_stage = match u8::decode(buf) {
            Ok(v) => v,
            Err(e) => return Err(e),
        };
        Ok(SetBlockDestroyStage { entity_id, location, destroy_stage })
    }
}

/// The data of a block entity, as NBT bytes.
pub struct BlockEntityData {
    pub location: Position,
    /// The kind of block entity.
    pub entity_type: BlockEntityType,
    pub nbt_data: Vec<u8>,
}

impl ClientboundPacketTrait for BlockEntityData {
    type Model = (<Position as PacketCodec>::Model, <BlockEntityType as PacketCodec>::Model, Seq<u8>);

    open spec fn model(&self) -> (<Position as PacketCodec>::Model, <BlockEntityType as PacketCodec>::Model, Seq<u8>) {
        (self.location.model(), self.entity_type.model(), self.nbt_data.model())
    }

    open spec fn spec_id() -> i32 {
        0x06
    }

    open spec fn spec_decode(s: Seq<u8>) -> Result<(Self::Model, Seq<u8>), CodecError> {
        dec3::<Position, BlockEntityType, Vec<u8>>(s)
    }

    open spec fn spec_decode_left(s: Seq<u8>) -> Seq<u8> {
        dec3_left::<Position, BlockEntityType, Vec<u8>>(s)
    }

    fn packet_id(&self) -> (r: i32) {
        0x06
    }

    fn decode(buf: &mut &[u8]) -> (r: Result<BlockEntityData, CodecError>) {
        let location = match Position::decode(buf) {
            Ok(v) => v,
            Err(e) => return Err(e),
        };
        let entity_type = match BlockEntityType::decode(buf) {
            Ok(v) => v,
            Err(e) => return Err(e),
        };
        let nbt_data = match Vec::<u8>::decode(buf) {
            Ok(v) => v,
            Err(e) => return Err(e),
        };
        Ok(BlockEntityData { location, entity_type, nbt_data })
    }
}

/// The kind of a block entity.
#[derive(Debug, Clone, Copy, PartialEq, Eq)]
pub enum BlockEntityType {
    MobSpawner,
    CommandBlock,
    Beacon,
    Skull,
    Conduit,
    Banner,
    StructureBlock,
    EndGateway,
    Sign,
    HangingSign,
    Bed,
    Jigsaw,
    Campfire,
    Beehive,
    SculkSensor,
    CalibratedSculkSensor,
    SculkCatalyst,
    SculkShrieker,
    DecoratedPot,
    Crafter,
}

impl BlockEntityType {
    /// The number that stands for the variant on the wire.
    pub open spec fn spec_id(self) -> i32 {
        match self {
            BlockEntityType::MobSpawner => 0,
            BlockEntityType::CommandBlock => 1,
            BlockEntityType::Beacon => 2,
            BlockEntityType::Skull => 3,
            BlockEntityType::Conduit => 4,
            BlockEntityType::Banner => 5,
            BlockEntityType::StructureBlock => 6,
            BlockEntityType::EndGateway => 7,
            BlockEntityType::Sign => 8,
            BlockEntityType::HangingSign => 9,
            BlockEntityType::Bed => 10,
            BlockEntityType::Jigsaw => 11,
            BlockEntityType::Campfire => 12,
            BlockEntityType::Beehive => 13,
            BlockEntityType::SculkSensor => 14,
            BlockEntityType::CalibratedSculkSensor => 15,
            BlockEntityType::SculkCatalyst => 16,
            BlockEntityType::SculkShrieker => 17,
            BlockEntityType::DecoratedPot => 18,
            BlockEntityType::Crafter => 19,
        }
    }

    /// The variant a number read from the wire stands for.
    pub open spec fn spec_from_id(v: i32) -> Option<BlockEntityType> {
        if v == 0 {
            Some(BlockEntityType::MobSpawner)
        } else if v == 1 {
            Some(BlockEntityType::CommandBlock)
        } else if v == 2 {
            Some(BlockEntityType::Beacon)
        } else if v == 3 {
            Some(BlockEntityType::Skull)
        } else if v == 4 {
            Some(BlockEntityType::Conduit)
        } else if v == 5 {
            Some(BlockEntityType::Banner)
        } else if v == 6 {
            Some(BlockEntityType::StructureBlock)
        } else if v == 7 {
            Some(BlockEntityType::EndGateway)
        } else if v == 8 {
            Some(BlockEntityType::Sign)
        } else if v == 9 {
            Some(BlockEntityType::HangingSign)
        } else if v == 10 {
            Some(BlockEntityType::Bed)
        } else if v == 11 {
            Some(BlockEntityType::Jigsaw)
        } else if v == 12 {
            Some(BlockEntityType::Campfire)
        } else if v == 13 {
            Some(BlockEntityType::Beehive)
        } else if v == 14 {
            Some(BlockEntityType::SculkSensor)
        } else if v == 15 {
            Some(BlockEntityType::CalibratedSculkSensor)
        } else if v == 16 {
            Some(BlockEntityType::SculkCatalyst)
        } else if v == 17 {
            Some(BlockEntityType::SculkShrieker)
        } else if v == 18 {
            Some(BlockEntityType::DecoratedPot)
        } else if v == 19 {
            Some(BlockEntityType::Crafter)
        } else {
            None
        }
    }

    /// The number that stands for the variant on the wire.
    pub fn id(&self) -> (r: i32)
        ensures
            r == self.spec_id(),
    {
        match self {
            BlockEntityType::MobSpawner => 0,
            BlockEntityType::CommandBlock => 1,
            BlockEntityType::Beacon => 2,
            BlockEntityType::Skull => 3,
            BlockEntityType::Conduit => 4,
            BlockEntityType::Banner => 5,
            BlockEntityType::StructureBlock => 6,
            BlockEntityType::EndGateway => 7,
            BlockEntityType::Sign => 8,
            BlockEntityType::HangingSign => 9,
            BlockEntityType::Bed => 10,
            BlockEntityType::Jigsaw => 11,
            BlockEntityType::Campfire => 12,
            BlockEntityType::Beehive => 13,
            BlockEntityType::SculkSensor => 14,
            BlockEntityType::CalibratedSculkSensor => 15,
            BlockEntityType::SculkCatalyst => 16,
            BlockEntityType::SculkShrieker => 17,
            BlockEntityType::DecoratedPot => 18,
            BlockEntityType::Crafter => 19,
        }
    }

    /// The variant a number read from the wire stands for.
    pub fn from_id(v: i32) -> (r: Option<BlockEntityType>)
        ensures
            r == Self::spec_from_id(v),
    {
        if v == 0 {
            Some(BlockEntityType::MobSpawner)
        } else if v == 1 {
            Some(BlockEntityType::CommandBlock)
        } else if v == 2 {
            Some(BlockEntityType::Beacon)
        } else if v == 3 {
            Some(BlockEntityType::Skull)
        } else if v == 4 {
            Some(BlockEntityType::Conduit)
        } else if v == 5 {
            Some(BlockEntityType::Banner)
        } else if v == 6 {
            Some(BlockEntityType::StructureBlock)
        } else if v == 7 {
            Some(BlockEntityType::EndGateway)
        } else if v == 8 {
            Some(BlockEntityType::Sign)
        } else if v == 9 {
            Some(BlockEntityType::HangingSign)
        } else if v == 10 {
            Some(BlockEntityType::Bed)
        } else if v == 11 {
            Some(BlockEntityType::Jigsaw)
        } else if v == 12 {
            Some(BlockEntityType::Campfire)
        } else if v == 13 {
            Some(BlockEntityType::Beehive)
        } else if v == 14 {
            Some(BlockEntityType::SculkSensor)
        } else if v == 15 {
            Some(BlockEntityType::CalibratedSculkSensor)
        } else if v == 16 {
            Some(BlockEntityType::SculkCatalyst)
        } else if v == 17 {
            Some(BlockEntityType::SculkShrieker)
        } else if v == 18 {
            Some(BlockEntityType::DecoratedPot)
        } else if v == 19 {
            Some(BlockEntityType::Crafter)
        } else {
            None
        }
    }
}

/// The variant's number as a VarInt; a number that names no variant is refused.
impl PacketCodec for BlockEntityType {
    type Model = BlockEntityType;

    open spec fn model(&self) -> BlockEntityType {
        *self
    }

    open spec fn spec_encode(m: BlockEntityType) -> Seq<u8> {
        <i32 as PacketCodec>::spec_encode(m.spec_id())
    }

    open spec fn spec_decode(s: Seq<u8>) -> Result<(BlockEntityType, Seq<u8>), CodecError> {
        match <i32 as PacketCodec>::spec_decode(s) {
            Err(e) => Err(e),
            Ok((v, rest)) => match BlockEntityType::spec_from_id(v) {
                Some(x) => Ok((x, rest)),
                None => Err(
                    CodecError::InvalidEnumValue {
                        enum_name: "BlockEntityType",
                        value: v,
                        expected: "0..19",
                    },
                ),
            },
        }
    }

    open spec fn spec_decode_left(s: Seq<u8>) -> Seq<u8> {
        match <i32 as PacketCodec>::spec_decode(s) {
            Err(_) => <i32 as PacketCodec>::spec_decode_left(s),
            Ok((_, rest)) => rest,
        }
    }

    open spec fn spec_valid(m: BlockEntityType) -> bool {
        true
    }

    fn encode(&self, buf: &mut Vec<u8>) -> (r: Result<(), CodecError>) {
        self.id().encode(buf)
    }

    fn decode(buf: &mut &[u8]) -> (r: Result<BlockEntityType, CodecError>) {
        let value = match <i32 as PacketCodec>::decode(buf) {
            Ok(v) => v,
            Err(e) => return Err(e),
        };
        match BlockEntityType::from_id(value) {
            Some(x) => Ok(x),
            None => Err(
                CodecError::InvalidEnumValue {
                    enum_name: "BlockEntityType",
                    value,
                    expected: "0..19",
                },
            ),
        }
    }

    proof fn lemma_roundtrip(m: BlockEntityType, rest: Seq<u8>) {
        <i32 as PacketCodec>::lemma_roundtrip(m.spec_id(), rest);
    }
}

/// A block action: its id and its parameter.
pub struct BlockActionData {
    pub action_id: u8,
    pub action_param: u8,
}

/// The id, then the parameter, one byte each.
impl PacketCodec for BlockActionData {
    type Model = (u8, u8);

    open spec fn model(&self) -> (u8, u8) {
        (self.action_id.model(), self.action_param.model())
    }

    open spec fn spec_encode(m: (u8, u8)) -> Seq<u8> {
        <u8 as PacketCodec>::spec_encode(m.0) + <u8 as PacketCodec>::spec_encode(m.1)
    }

    open spec fn spec_decode(s: Seq<u8>) -> Result<((u8, u8), Seq<u8>), CodecError> {
        dec2::<u8, u8>(s)
    }

    open spec fn spec_decode_left(s: Seq<u8>) -> Seq<u8> {
        dec2_left::<u8, u8>(s)
    }

    open spec fn spec_valid(m: (u8, u8)) -> bool {
        <u8 as PacketCodec>::spec_valid(m.0) && <u8 as PacketCodec>::spec_valid(m.1)
    }

    fn encode(&self, buf: &mut Vec<u8>) -> (r: Result<(), CodecError>) {
        let _ = self.action_id.encode(buf);
        let _ = self.action_param.encode(buf);
        assert(buf@ =~= old(buf)@ + Self::spec_encode(self.model()));
        Ok(())
    }

    fn decode(buf: &mut &[u8]) -> (r: Result<BlockActionData, CodecError>) {
        let action_id = match u8::decode(buf) {
            Ok(v) => v,
            Err(e) => return Err(e),
        };
        let action_param = match u8::decode(buf) {
            Ok(v) => v,
            Err(e) => return Err(e),
        };
        Ok(BlockActionData { action_id, action_param })
    }

    proof fn lemma_roundtrip(m: (u8, u8), rest: Seq<u8>) {
        lemma_dec2_roundtrip::<u8, u8>(m.0, m.1, rest);
    }
}

/// A block does an action, such as a chest opening.
pub struct BlockAction {
    pub location: Position,
    pub action: BlockActionData,
    pub block_type: i32,
}

impl ClientboundPacketTrait for BlockAction {
    type Model = (<Position as PacketCodec>::Model, <BlockActionData as PacketCodec>::Model, i32);

    open spec fn model(&self) -> (<Position as PacketCodec>::Model, <BlockActionData as PacketCodec>::Model, i32) {
        (self.location.model(), self.action.model(), self.block_type.model())
    }

    open spec fn spec_id() -> i32 {
        0x07
    }

    open spec fn spec_decode(s: Seq<u8>) -> Result<(Self::Model, Seq<u8>), CodecError> {
        dec3::<Position, BlockActionData, i32>(s)
    }

    open spec fn spec_decode_left(s: Seq<u8>) -> Seq<u8> {
        dec3_left::<Position, BlockActionData, i32>(s)
    }

    fn packet_id(&self) -> (r: i32) {
        0x07
    }

    fn decode(buf: &mut &[u8]) -> (r: Result<BlockAction, CodecError>) {
        let location = match Position::decode(buf) {
            Ok(v) => v,
            Err(e) => return Err(e),
        };
        let action = match BlockActionData::decode(buf) {
            Ok(v) => v,
            Err(e) => return Err(e),
        };
        let block_type = match i32::decode(buf) {
            Ok(v) => v,
            Err(e) => return Err(e),
        };
        Ok(BlockAction { location, action, block_type })
    }
}

/// A block changes to the block state with the given id.
pub struct BlockUpdate {
    pub location: Position,
    pub block_id: i32,
}

impl ClientboundPacketTrait for BlockUpdate {
    type Model = (<Position as PacketCodec>::Model, i32);

    open spec fn model(&self) -> (<Position as PacketCodec>::Model, i32) {
        (self.location.model(), self.block_id.model())
    }

    open spec fn spec_id() -> i32 {
        0x08
    }

    open spec fn spec_decode(s: Seq<u8>) -> Result<(Self::Model, Seq<u8>), CodecError> {
        dec2::<Position, i32>(s)
    }

    open spec fn spec_decode_left(s: Seq<u8>) -> Seq<u8> {
        dec2_left::<Position, i32>(s)
    }

    fn packet_id(&self) -> (r: i32) {
        0x08
    }

    fn decode(buf: &mut &[u8]) -> (r: Result<BlockUpdate, CodecError>) {
        let location = match Position::decode(buf) {
            Ok(v) => v,
            Err(e) => return Err(e),
        };
        let block_id = match i32::decode(buf) {
            Ok(v) => v,
            Err(e) => return Err(e),
        };
        Ok(BlockUpdate { location, block_id })
    }
}
/// The values of `BlockEntityType` travel as fixed numbers: MobSpawner 0, CommandBlock 1, Beacon 2, Skull 3, Conduit 4, Banner 5, StructureBlock 6, EndGateway 7, Sign 8, HangingSign 9, Bed 10, Jigsaw 11, Campfire 12, Beehive 13, SculkSensor 14, CalibratedSculkSensor 15, SculkCatalyst 16, SculkShrieker 17, DecoratedPot 18, Crafter 19.
/// Each is written as the one-byte VarInt of its number and read back from
/// it, whatever follows; every other number below 128 is refused.
pub proof fn lemma_block_entity_type_wire(rest: Seq<u8>)
    ensures
        <BlockEntityType as PacketCodec>::spec_encode(BlockEntityType::MobSpawner) == seq![0u8],
        <BlockEntityType as PacketCodec>::spec_encode(BlockEntityType::CommandBlock) == seq![1u8],
        <BlockEntityType as PacketCodec>::spec_encode(BlockEntityType::Beacon) == seq![2u8],
        <BlockEntityType as PacketCodec>::spec_encode(BlockEntityType::Skull) == seq![3u8],
        <BlockEntityType as PacketCodec>::spec_encode(BlockEntityType::Conduit) == seq![4u8],
        <BlockEntityType as PacketCodec>::spec_encode(BlockEntityType::Banner) == seq![5u8],
        <BlockEntityType as PacketCodec>::spec_encode(BlockEntityType::StructureBlock) == seq![6u8],
        <BlockEntityType as PacketCodec>::spec_encode(BlockEntityType::EndGateway) == seq![7u8],
        <BlockEntityType as PacketCodec>::spec_encode(BlockEntityType::Sign) == seq![8u8],
        <BlockEntityType as PacketCodec>::spec_encode(BlockEntityType::HangingSign) == seq![9u8],
        <BlockEntityType as PacketCodec>::spec_encode(BlockEntityType::Bed) == seq![10u8],
        <BlockEntityType as PacketCodec>::spec_encode(BlockEntityType::Jigsaw) == seq![11u8],
        <BlockEntityType as PacketCodec>::spec_encode(BlockEntityType::Campfire) == seq![12u8],
        <BlockEntityType as PacketCodec>::spec_encode(BlockEntityType::Beehive) == seq![13u8],
        <BlockEntityType as PacketCodec>::spec_encode(BlockEntityType::SculkSensor) == seq![14u8],
        <BlockEntityType as PacketCodec>::spec_encode(BlockEntityType::CalibratedSculkSensor) == seq![15u8],
        <BlockEntityType as PacketCodec>::spec_encode(BlockEntityType::SculkCatalyst) == seq![16u8],
        <BlockEntityType as PacketCodec>::spec_encode(BlockEntityType::SculkShrieker) == seq![17u8],
        <BlockEntityType as PacketCodec>::spec_encode(BlockEntityType::DecoratedPot) == seq![18u8],
        <BlockEntityType as PacketCodec>::spec_encode(BlockEntityType::Crafter) == seq![19u8],
        <BlockEntityType as PacketCodec>::spec_decode(seq![0u8] + rest) == Ok::<(BlockEntityType, Seq<u8>), CodecError>(
            (BlockEntityType::MobSpawner, rest),
        ),
        <BlockEntityType as PacketCodec>::spec_decode(seq![1u8] + rest) == Ok::<(BlockEntityType, Seq<u8>), CodecError>(
            (BlockEntityType::CommandBlock, rest),
        ),
        <BlockEntityType as PacketCodec>::spec_decode(seq![2u8] + rest) == Ok::<(BlockEntityType, Seq<u8>), CodecError>(
            (BlockEntityType::Beacon, rest),
        ),
        <BlockEntityType as PacketCodec>::spec_decode(seq![3u8] + rest) == Ok::<(BlockEntityType, Seq<u8>), CodecError>(
            (BlockEntityType::Skull, rest),
        ),
        <BlockEntityType as PacketCodec>::spec_decode(seq![4u8] + rest) == Ok::<(BlockEntityType, Seq<u8>), CodecError>(
            (BlockEntityType::Conduit, rest),
        ),
        <BlockEntityType as PacketCodec>::spec_decode(seq![5u8] + rest) == Ok::<(BlockEntityType, Seq<u8>), CodecError>(
            (BlockEntityType::Banner, rest),
        ),
        <BlockEntityType as PacketCodec>::spec_decode(seq![6u8] + rest) == Ok::<(BlockEntityType, Seq<u8>), CodecError>(
            (BlockEntityType::StructureBlock, rest),
        ),
        <BlockEntityType as PacketCodec>::spec_decode(seq![7u8] + rest) == Ok::<(BlockEntityType, Seq<u8>), CodecError>(
            (BlockEntityType::EndGateway, rest),
        ),
        <BlockEntityType as PacketCodec>::spec_decode(seq![8u8] + rest) == Ok::<(BlockEntityType, Seq<u8>), CodecError>(
            (BlockEntityType::Sign, rest),
        ),
        <BlockEntityType as PacketCodec>::spec_decode(seq![9u8] + rest) == Ok::<(BlockEntityType, Seq<u8>), CodecError>(
            (BlockEntityType::HangingSign, rest),
        ),
        <BlockEntityType as PacketCodec>::spec_decode(seq![10u8] + rest) == Ok::<(BlockEntityType, Seq<u8>), CodecError>(
            (BlockEntityType::Bed, rest),
        ),
        <BlockEntityType as PacketCodec>::spec_decode(seq![11u8] + rest) == Ok::<(BlockEntityType, Seq<u8>), CodecError>(
            (BlockEntityType::Jigsaw, rest),
        ),
        <BlockEntityType as PacketCodec>::spec_decode(seq![12u8] + rest) == Ok::<(BlockEntityType, Seq<u8>), CodecError>(
            (BlockEntityType::Campfire, rest),
        ),
        <BlockEntityType as PacketCodec>::spec_decode(seq![13u8] + rest) == Ok::<(BlockEntityType, Seq<u8>), CodecError>(
            (BlockEntityType::Beehive, rest),
        ),
        <BlockEntityType as PacketCodec>::spec_decode(seq![14u8] + rest) == Ok::<(BlockEntityType, Seq<u8>), CodecError>(
            (BlockEntityType::SculkSensor, rest),
        ),
        <BlockEntityType as PacketCodec>::spec_decode(seq![15u8] + rest) == Ok::<(BlockEntityType, Seq<u8>), CodecError>(
            (BlockEntityType::CalibratedSculkSensor, rest),
        ),
        <BlockEntityType as PacketCodec>::spec_decode(seq![16u8] + rest) == Ok::<(BlockEntityType, Seq<u8>), CodecError>(
            (BlockEntityType::SculkCatalyst, rest),
        ),
        <BlockEntityType as PacketCodec>::spec_decode(seq![17u8] + rest) == Ok::<(BlockEntityType, Seq<u8>), CodecError>(
            (BlockEntityType::SculkShrieker, rest),
        ),
        <BlockEntityType as PacketCodec>::spec_decode(seq![18u8] + rest) == Ok::<(BlockEntityType, Seq<u8>), CodecError>(
            (BlockEntityType::DecoratedPot, rest),
        ),
        <BlockEntityType as PacketCodec>::spec_decode(seq![19u8] + rest) == Ok::<(BlockEntityType, Seq<u8>), CodecError>(
            (BlockEntityType::Crafter, rest),
        ),
        forall|v: u8|
            v < 128 && v != 0 && v != 1 && v != 2 && v != 3 && v != 4 && v != 5 && v != 6 && v != 7 && v != 8 && v != 9 && v != 10 && v != 11 && v != 12 && v != 13 && v != 14 && v != 15 && v != 16 && v != 17 && v != 18 && v != 19 ==> #[trigger] <BlockEntityType as PacketCodec>::spec_decode(
                seq![v] + rest,
            ) == Err::<(BlockEntityType, Seq<u8>), CodecError>(
                (CodecError::InvalidEnumValue { value: v as i32, enum_name: "BlockEntityType", expected: "0..19" }),
            ),
{
    lemma_varint_one_byte(0u8, rest);
    lemma_varint_one_byte(1u8, rest);
    lemma_varint_one_byte(2u8, rest);
    lemma_varint_one_byte(3u8, rest);
    lemma_varint_one_byte(4u8, rest);
    lemma_varint_one_byte(5u8, rest);
    lemma_varint_one_byte(6u8, rest);
    lemma_varint_one_byte(7u8, rest);
    lemma_varint_one_byte(8u8, rest);
    lemma_varint_one_byte(9u8, rest);
    lemma_varint_one_byte(10u8, rest);
    lemma_varint_one_byte(11u8, rest);
    lemma_varint_one_byte(12u8, rest);
    lemma_varint_one_byte(13u8, rest);
    lemma_varint_one_byte(14u8, rest);
    lemma_varint_one_byte(15u8, rest);
    lemma_varint_one_byte(16u8, rest);
    lemma_varint_one_byte(17u8, rest);
    lemma_varint_one_byte(18u8, rest);
    lemma_varint_one_byte(19u8, rest);
    assert forall|v: u8| v < 128 && v != 0 && v != 1 && v != 2 && v != 3 && v != 4 && v != 5 && v != 6 && v != 7 && v != 8 && v != 9 && v != 10 && v != 11 && v != 12 && v != 13 && v != 14 && v != 15 && v != 16 && v != 17 && v != 18 && v != 19 implies #[trigger] <BlockEntityType as PacketCodec>::spec_decode(
        seq![v] + rest,
    ) == Err::<(BlockEntityType, Seq<u8>), CodecError>(
        (CodecError::InvalidEnumValue { value: v as i32, enum_name: "BlockEntityType", expected: "0..19" }),
    ) by {
        lemma_varint_one_byte(v, rest);
    }
}

/// The fixed ids of the block packets this module defines, each in its
/// direction: a packet is known on the wire by this number alone.
pub proof fn lemma_block_packet_ids()
    ensures
        <AcknowledgeBlockChange as ClientboundPacketTrait>::spec_id() == 0x04,
        <SetBlockDestroyStage as ClientboundPacketTrait>::spec_id() == 0x05,
        <BlockEntityData as ClientboundPacketTrait>::spec_id() == 0x06,
        <BlockAction as ClientboundPacketTrait>::spec_id() == 0x07,
        <BlockUpdate as ClientboundPacketTrait>::spec_id() == 0x08,
{
}

} // verus!
