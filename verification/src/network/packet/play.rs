//! The play phase: entities, statistics, chunks, commands; blocks, boss bars
//! and containers in the submodules.
use vstd::prelude::*;
use vstd::seq_lib::lemma_concat_associative;

use crate::network::packet::TextComponent;
use crate::utils::compound::option_model;
use crate::utils::fields::{dec2, dec2_left, dec3, dec3_left, dec4, dec4_left, lemma_dec2_roundtrip,
    lemma_dec3_roundtrip};
use crate::utils::varint::lemma_varint_one_byte;
use crate::utils::{ClientboundPacketTrait, CodecError, Identifier, Long, PacketCodec};

pub mod block;
pub mod bossbar;

pub mod container;

verus! {

/// An angle in steps of 1/256 of a full turn.
#[derive(Debug, Clone, Copy, PartialEq, Eq)]
pub struct Angle(pub u8);

/// The step count as one byte.
impl PacketCodec for Angle {
    type Model = u8;

    open spec fn model(&self) -> u8 {
        self.0
    }

    open spec fn spec_encode(m: u8) -> Seq<u8> {
        <u8 as PacketCodec>::spec_encode(m)
    }

    open spec fn spec_decode(s: Seq<u8>) -> Result<(u8, Seq<u8>), CodecError> {
        <u8 as PacketCodec>::spec_decode(s)
    }

    open spec fn spec_decode_left(s: Seq<u8>) -> Seq<u8> {
        <u8 as PacketCodec>::spec_decode_left(s)
    }

    open spec fn spec_valid(m: u8) -> bool {
        true
    }

    fn encode(&self, buf: &mut Vec<u8>) -> (r: Result<(), CodecError>) {
        self.0.encode(buf)
    }

    fn decode(buf: &mut &[u8]) -> (r: Result<Angle, CodecError>) {
        match u8::decode(buf) {
            Ok(v) => Ok(Angle(v)),
            Err(e) => Err(e),
        }
    }

    proof fn lemma_roundtrip(m: u8, rest: Seq<u8>) {
        <u8 as PacketCodec>::lemma_roundtrip(m, rest);
    }
}

/// The low bits of a packed velocity that hold its scale: the scale itself
/// when it fits in two bits, else its low two bits and the continuation flag
/// `4`.
pub open spec fn lpvec3_scale_bits(scale: u64) -> u64 {
    if scale & 3 != scale {
        (scale & 3) | 4
    } else {
        scale
    }
}

/// A packed velocity: the quantized components at bits 3, 18 and 33, the
/// scale bits below them.
pub open spec fn lpvec3_packed(qx: u64, qy: u64, qz: u64, scale: u64) -> u64 {
    (qz << 33u64) | (qy << 18u64) | (qx << 3u64) | lpvec3_scale_bits(scale)
}

/// The bytes of a packed velocity: its low byte, its next byte, the 32 bits
/// above them, then, when the scale does not fit in two bits, the rest of the
/// scale as a VarInt.
pub open spec fn lpvec3_bytes(qx: u64, qy: u64, qz: u64, scale: u64) -> Seq<u8> {
    let p = lpvec3_packed(qx, qy, qz, scale);
    <u8 as PacketCodec>::spec_encode(p as u8) + <u8 as PacketCodec>::spec_encode((p >> 8u64) as u8)
        + <u32 as PacketCodec>::spec_encode((p >> 16u64) as u32) + if scale & 3 != scale {
        <i32 as PacketCodec>::spec_encode((scale >> 2u64) as i32)
    } else {
        Seq::empty()
    }
}

/// The quantized components and the scale of a packed velocity.
pub open spec fn lpvec3_unpacked(p: u64, scale: u64) -> (u64, u64, u64, u64) {
    ((p >> 3u64) & 0x7FFF, (p >> 18u64) & 0x7FFF, (p >> 33u64) & 0x7FFF, scale)
}

/// The packed bits from the first byte, the second and the next 32 bits.
pub open spec fn lpvec3_join(b1: u8, b2: u8, w: u32) -> u64 {
    ((w as u64) << 16u64) | ((b2 as u64) << 8u64) | (b1 as u64)
}

/// What reading a packed velocity from the front of `s` gives: `None` for the
/// zero velocity (a first byte of `0`), else its quantized components and
/// scale.
pub open spec fn lpvec3_decode(s: Seq<u8>) -> Result<(Option<(u64, u64, u64, u64)>, Seq<u8>), CodecError> {
    match <u8 as PacketCodec>::spec_decode(s) {
        Err(e) => Err(e),
        Ok((b1, r1)) => if b1 == 0 {
            Ok((None, r1))
        } else {
            match dec2::<u8, u32>(r1) {
                Err(e) => Err(e),
                Ok(((b2, w), r2)) => {
                    let p = lpvec3_join(b1, b2, w);
                    if p & 4 == 4 {
                        match <i32 as PacketCodec>::spec_decode(r2) {
                            Err(e) => Err(e),
                            Ok((hi, r3)) => Ok(
                                (
                                    Some(
                                        lpvec3_unpacked(p, (p & 3) | (((hi as u32) as u64) << 2u64)),
                                    ),
                                    r3,
                                ),
                            ),
                        }
                    } else {
                        Ok((Some(lpvec3_unpacked(p, p & 3)), r2))
                    }
                },
            }
        },
    }
}

/// What is left of `s` when reading a packed velocity fails.
pub open spec fn lpvec3_left(s: Seq<u8>) -> Seq<u8> {
    match <u8 as PacketCodec>::spec_decode(s) {
        Err(_) => <u8 as PacketCodec>::spec_decode_left(s),
        Ok((b1, r1)) => match dec2::<u8, u32>(r1) {
            Err(_) => dec2_left::<u8, u32>(r1),
            Ok((_, r2)) => <i32 as PacketCodec>::spec_decode_left(r2),
        },
    }
}

/// Writes a packed velocity from its quantized components and scale.
pub fn encode_lpvec3_bits(qx: u64, qy: u64, qz: u64, scale: u64, buf: &mut Vec<u8>)
    ensures
        final(buf)@ == old(buf)@ + lpvec3_bytes(qx, qy, qz, scale),
{
    let need_continuation = (scale & 3) != scale;
    let packed_scale = if need_continuation {
        (scale & 3) | 4
    } else {
        scale
    };
    let packed: u64 = (qz << 33u64) | (qy << 18u64) | (qx << 3u64) | packed_scale;
    let _ = (packed as u8).encode(buf);
    let _ = ((packed >> 8u64) as u8).encode(buf);
    let _ = ((packed >> 16u64) as u32).encode(buf);
    if need_continuation {
        let _ = ((scale >> 2u64) as i32).encode(buf);
    }
    assert(buf@ =~= old(buf)@ + lpvec3_bytes(qx, qy, qz, scale));
}

/// Reads a packed velocity: `None` for the zero velocity, else its quantized
/// components and scale.
pub fn decode_lpvec3_bits(buf: &mut &[u8]) -> (r: Result<Option<(u64, u64, u64, u64)>, CodecError>)
    ensures
        match lpvec3_decode(old(buf)@) {
            Ok((v, rest)) => r == Ok::<Option<(u64, u64, u64, u64)>, CodecError>(v) && final(buf)@
                == rest,
            Err(e) => r matches Err(e2) && e2 == e && final(buf)@ == lpvec3_left(old(buf)@),
        },
{
    let byte1 = match u8::decode(buf) {
        Ok(v) => v,
        Err(e) => return Err(e),
    };
    if byte1 == 0 {
        return Ok(None);
    }
    let byte2 = match u8::decode(buf) {
        Ok(v) => v,
        Err(e) => return Err(e),
    };
    let bytes3_to_6 = match u32::decode(buf) {
        Ok(v) => v,
        Err(e) => return Err(e),
    };
    let packed: u64 = ((bytes3_to_6 as u64) << 16u64) | ((byte2 as u64) << 8u64) | (byte1 as u64);
    let mut scale_factor: u64 = packed & 3;
    if (packed & 4) == 4 {
        let hi = match i32::decode(buf) {
            Ok(v) => v,
            Err(e) => return Err(e),
        };
        scale_factor = scale_factor | (((hi as u32) as u64) << 2u64);
    }
    Ok(Some(((packed >> 3u64) & 0x7FFF, (packed >> 18u64) & 0x7FFF, (packed >> 33u64) & 0x7FFF, scale_factor)))
}

/// Components of 15 bits and a scale from 1 below `2^34` read back as written,
/// followed by anything.
#[verifier::spinoff_prover]
#[verifier::rlimit(40)]
pub proof fn lemma_lpvec3_roundtrip(qx: u64, qy: u64, qz: u64, scale: u64, rest: Seq<u8>)
    requires
        qx < 0x8000,
        qy < 0x8000,
        qz < 0x8000,
        1 <= scale < 0x4_0000_0000,
    ensures
        lpvec3_decode(lpvec3_bytes(qx, qy, qz, scale) + rest) == Ok::<
            (Option<(u64, u64, u64, u64)>, Seq<u8>),
            CodecError,
        >((Some((qx, qy, qz, scale)), rest)),
{
    let p = lpvec3_packed(qx, qy, qz, scale);
    let b1 = p as u8;
    let b2 = (p >> 8u64) as u8;
    let w = (p >> 16u64) as u32;
    let need = scale & 3 != scale;
    let sb = lpvec3_scale_bits(scale);
    assert(sb & 7 == sb && sb != 0 && (sb & 4 == 4 <==> need) && sb & 3 == scale & 3) by (bit_vector)
        requires
            sb == (if scale & 3 != scale { (scale & 3) | 4 } else { scale }),
            need == (scale & 3 != scale),
            1 <= scale,
    ;
    assert(b1 != 0 && lpvec3_join(b1, b2, w) == p) by (bit_vector)
        requires
            p == (qz << 33u64) | (qy << 18u64) | (qx << 3u64) | sb,
            qx < 0x8000,
            qy < 0x8000,
            qz < 0x8000,
            sb & 7 == sb,
            sb != 0,
            b1 == p as u8,
            b2 == (p >> 8u64) as u8,
            w == (p >> 16u64) as u32,
    ;
    assert((p >> 3u64) & 0x7FFF == qx && (p >> 18u64) & 0x7FFF == qy && (p >> 33u64) & 0x7FFF == qz
        && p & 7 == sb) by (bit_vector)
        requires
            p == (qz << 33u64) | (qy << 18u64) | (qx << 3u64) | sb,
            qx < 0x8000,
            qy < 0x8000,
            qz < 0x8000,
            sb & 7 == sb,
    ;
    let hi = (scale >> 2u64) as i32;
    assert(((p & 3) | (((hi as u32) as u64) << 2u64)) == scale) by (bit_vector)
        requires
            p & 7 == sb,
            sb & 3 == scale & 3,
            hi == (scale >> 2u64) as i32,
            scale < 0x4_0000_0000,
    ;
    assert((p & 4 == 4) <==> need) by (bit_vector)
        requires
            p & 7 == sb,
            (sb & 4 == 4 <==> need),
    ;
    assert(!need ==> p & 3 == scale) by (bit_vector)
        requires
            p & 7 == sb,
            sb == (if scale & 3 != scale { (scale & 3) | 4 } else { scale }),
            need == (scale & 3 != scale),
    ;
    let tail_enc = if need {
        <i32 as PacketCodec>::spec_encode(hi)
    } else {
        Seq::<u8>::empty()
    };
    let r2 = tail_enc + rest;
    <i32 as PacketCodec>::lemma_roundtrip(hi, rest);
    lemma_dec2_roundtrip::<u8, u32>(b2, w, r2);
    <u8 as PacketCodec>::lemma_roundtrip(b1, <u8 as PacketCodec>::spec_encode(b2)
        + <u32 as PacketCodec>::spec_encode(w) + r2);
    assert(lpvec3_bytes(qx, qy, qz, scale) + rest =~= <u8 as PacketCodec>::spec_encode(b1) + (
    <u8 as PacketCodec>::spec_encode(b2) + <u32 as PacketCodec>::spec_encode(w) + r2));
    if !need {
        assert(r2 =~= rest);
    }
}

/// A block position.
#[derive(Debug, Clone, Copy, PartialEq, Eq)]
pub struct Position {
    pub x: i32,
    pub y: i32,
    pub z: i32,
}

/// The position packed into one long: `x` in the top 26 bits, `z` in the
/// next 26, `y` in the low 12; each coordinate keeps only its low bits.
pub open spec fn pack_position(x: i32, y: i32, z: i32) -> i64 {
    (((x as i64) & 0x3FFFFFF) << 38u64) | (((z as i64) & 0x3FFFFFF) << 12u64) | ((y as i64)
        & 0xFFF)
}

/// The `x` of a packed position: its top 26 bits, sign-extended.
pub open spec fn unpack_x(v: i64) -> i32 {
    (v >> 38u64) as i32
}

/// The `y` of a packed position: its low 12 bits, sign-extended.
pub open spec fn unpack_y(v: i64) -> i32 {
    ((v << 52u64) >> 52u64) as i32
}

/// The `z` of a packed position: bits 12 to 37, sign-extended.
pub open spec fn unpack_z(v: i64) -> i32 {
    ((v << 26u64) >> 38u64) as i32
}

/// Coordinates that fit the packed form: `x` and `z` in 26 signed bits, `y`
/// in 12.
pub open spec fn position_fits(x: i32, y: i32, z: i32) -> bool {
    &&& -0x2000000 <= x < 0x2000000
    &&& -0x800 <= y < 0x800
    &&& -0x2000000 <= z < 0x2000000
}

/// Unpacking a packed position that fits gives its coordinates back.
pub proof fn lemma_position_pack_unpack(x: i32, y: i32, z: i32)
    requires
        position_fits(x, y, z),
    ensures
        unpack_x(pack_position(x, y, z)) == x,
        unpack_y(pack_position(x, y, z)) == y,
        unpack_z(pack_position(x, y, z)) == z,
{
    assert(unpack_x(pack_position(x, y, z)) == x) by (bit_vector)
        requires
            -0x2000000 <= x < 0x2000000,
    ;
    assert(unpack_y(pack_position(x, y, z)) == y) by (bit_vector)
        requires
            -0x800 <= y < 0x800,
    ;
    assert(unpack_z(pack_position(x, y, z)) == z) by (bit_vector)
        requires
            -0x2000000 <= z < 0x2000000,
    ;
}

/// The packed position as a big-endian long.
impl PacketCodec for Position {
    type Model = (i32, i32, i32);

    open spec fn model(&self) -> (i32, i32, i32) {
        (self.x, self.y, self.z)
    }

    open spec fn spec_encode(m: (i32, i32, i32)) -> Seq<u8> {
        <Long as PacketCodec>::spec_encode(pack_position(m.0, m.1, m.2))
    }

    open spec fn spec_decode(s: Seq<u8>) -> Result<((i32, i32, i32), Seq<u8>), CodecError> {
        match <Long as PacketCodec>::spec_decode(s) {
            Err(e) => Err(e),
            Ok((v, rest)) => Ok(((unpack_x(v), unpack_y(v), unpack_z(v)), rest)),
        }
    }

    open spec fn spec_decode_left(s: Seq<u8>) -> Seq<u8> {
        <Long as PacketCodec>::spec_decode_left(s)
    }

    open spec fn spec_valid(m: (i32, i32, i32)) -> bool {
        position_fits(m.0, m.1, m.2)
    }

    fn encode(&self, buf: &mut Vec<u8>) -> (r: Result<(), CodecError>) {
        let packed: i64 = ((self.x as i64 & 0x3FFFFFF) << 38u64) | ((self.z as i64 & 0x3FFFFFF)
            << 12u64) | (self.y as i64 & 0xFFF);
        Long(packed).encode(buf)
    }

    fn decode(buf: &mut &[u8]) -> (r: Result<Position, CodecError>) {
        let val = match Long::decode(buf) {
            Ok(v) => v.0,
            Err(e) => return Err(e),
        };
        let x = (val >> 38u64) as i32;
        let y = ((val << 52u64) >> 52u64) as i32;
        let z = ((val << 26u64) >> 38u64) as i32;
        Ok(Position { x, y, z })
    }

    proof fn lemma_roundtrip(m: (i32, i32, i32), rest: Seq<u8>) {
        <Long as PacketCodec>::lemma_roundtrip(pack_position(m.0, m.1, m.2), rest);
        lemma_position_pack_unpack(m.0, m.1, m.2);
    }
}

/// Marks the start or end of a bundle of packets; it has no fields.
pub struct BundleDelimiter;

impl ClientboundPacketTrait for BundleDelimiter {
    type Model = ();

    open spec fn model(&self) -> () {
        ()
    }

    open spec fn spec_id() -> i32 {
        0x00
    }

    open spec fn spec_decode(s: Seq<u8>) -> Result<((), Seq<u8>), CodecError> {
        Ok(((), s))
    }

    open spec fn spec_decode_left(s: Seq<u8>) -> Seq<u8> {
        s
    }

    fn packet_id(&self) -> (r: i32) {
        0x00
    }

    fn decode(buf: &mut &[u8]) -> (r: Result<BundleDelimiter, CodecError>) {
        Ok(BundleDelimiter)
    }
}

/// An entity plays an animation.
pub struct EntityAnimation {
    pub entity_id: i32,
    pub animation: EntityAnimationType,
}

impl ClientboundPacketTrait for EntityAnimation {
    type Model = (i32, <EntityAnimationType as PacketCodec>::Model);

    open spec fn model(&self) -> (i32, <EntityAnimationType as PacketCodec>::Model) {
        (self.entity_id.model(), self.animation.model())
    }

    open spec fn spec_id() -> i32 {
        0x02
    }

    open spec fn spec_decode(s: Seq<u8>) -> Result<(Self::Model, Seq<u8>), CodecError> {
        dec2::<i32, EntityAnimationType>(s)
    }

    open spec fn spec_decode_left(s: Seq<u8>) -> Seq<u8> {
        dec2_left::<i32, EntityAnimationType>(s)
    }

    fn packet_id(&self) -> (r: i32) {
        0x02
    }

    fn decode(buf: &mut &[u8]) -> (r: Result<EntityAnimation, CodecError>) {
        let entity_id = match i32::decode(buf) {
            Ok(v) => v,
            Err(e) => return Err(e),
        };
        let animation = match EntityAnimationType::decode(buf) {
            Ok(v) => v,
            Err(e) => return Err(e),
        };
        Ok(EntityAnimation { entity_id, animation })
    }
}

/// An entity animation. `TakeDamage` is written but not read back.
#[derive(Debug, Clone, Copy, PartialEq, Eq)]
pub enum EntityAnimationType {
    SwingMainArm,
    TakeDamage,
    LeaveBed,
    SwingOffHand,
    CriticalEffect,
    MagicCriticalEffect,
}

impl EntityAnimationType {
    /// The number that stands for the variant on the wire.
    pub open spec fn spec_id(self) -> u8 {
        match self {
            EntityAnimationType::SwingMainArm => 0,
            EntityAnimationType::TakeDamage => 1,
            EntityAnimationType::LeaveBed => 2,
            EntityAnimationType::SwingOffHand => 3,
            EntityAnimationType::CriticalEffect => 4,
            EntityAnimationType::MagicCriticalEffect => 5,
        }
    }

    /// The variant a number read from the wire stands for.
    pub open spec fn spec_from_id(v: u8) -> Option<EntityAnimationType> {
        if v == 0 {
            Some(EntityAnimationType::SwingMainArm)
        } else if v == 2 {
            Some(EntityAnimationType::LeaveBed)
        } else if v == 3 {
            Some(EntityAnimationType::SwingOffHand)
        } else if v == 4 {
            Some(EntityAnimationType::CriticalEffect)
        } else if v == 5 {
            Some(EntityAnimationType::MagicCriticalEffect)
        } else {
            None
        }
    }

    /// The number that stands for the variant on the wire.
    pub fn id(&self) -> (r: u8)
        ensures
            r == self.spec_id(),
    {
        match self {
            EntityAnimationType::SwingMainArm => 0,
            EntityAnimationType::TakeDamage => 1,
            EntityAnimationType::LeaveBed => 2,
            EntityAnimationType::SwingOffHand => 3,
            EntityAnimationType::CriticalEffect => 4,
            EntityAnimationType::MagicCriticalEffect => 5,
        }
    }

    /// The variant a number read from the wire stands for.
    pub fn from_id(v: u8) -> (r: Option<EntityAnimationType>)
        ensures
            r == Self::spec_from_id(v),
    {
        if v == 0 {
            Some(EntityAnimationType::SwingMainArm)
        } else if v == 2 {
            Some(EntityAnimationType::LeaveBed)
        } else if v == 3 {
            Some(EntityAnimationType::SwingOffHand)
        } else if v == 4 {
            Some(EntityAnimationType::CriticalEffect)
        } else if v == 5 {
            Some(EntityAnimationType::MagicCriticalEffect)
        } else {
            None
        }
    }
}

/// The variant's number as one byte; a number that names no variant, or
/// names one that is not read, is refused.
impl PacketCodec for EntityAnimationType {
    type Model = EntityAnimationType;

    open spec fn model(&self) -> EntityAnimationType {
        *self
    }

    open spec fn spec_encode(m: EntityAnimationType) -> Seq<u8> {
        <u8 as PacketCodec>::spec_encode(m.spec_id())
    }

    open spec fn spec_decode(s: Seq<u8>) -> Result<(EntityAnimationType, Seq<u8>), CodecError> {
        match <u8 as PacketCodec>::spec_decode(s) {
            Err(e) => Err(e),
            Ok((v, rest)) => match EntityAnimationType::spec_from_id(v) {
                Some(x) => Ok((x, rest)),
                None => Err(
                    CodecError::InvalidEnumValue {
                        enum_name: "EntityAnimationType",
                        value: v as i32,
                        expected: "0..5",
                    },
                ),
            },
        }
    }

    open spec fn spec_decode_left(s: Seq<u8>) -> Seq<u8> {
        match <u8 as PacketCodec>::spec_decode(s) {
            Err(_) => <u8 as PacketCodec>::spec_decode_left(s),
            Ok((_, rest)) => rest,
        }
    }

    open spec fn spec_valid(m: EntityAnimationType) -> bool {
        m != EntityAnimationType::TakeDamage
    }

    fn encode(&self, buf: &mut Vec<u8>) -> (r: Result<(), CodecError>) {
        self.id().encode(buf)
    }

    fn decode(buf: &mut &[u8]) -> (r: Result<EntityAnimationType, CodecError>) {
        let value = match <u8 as PacketCodec>::decode(buf) {
            Ok(v) => v,
            Err(e) => return Err(e),
        };
        match EntityAnimationType::from_id(value) {
            Some(x) => Ok(x),
            None => Err(
                CodecError::InvalidEnumValue {
                    enum_name: "EntityAnimationType",
                    value: value as i32,
                    expected: "0..5",
                },
            ),
        }
    }

    proof fn lemma_roundtrip(m: EntityAnimationType, rest: Seq<u8>) {
        <u8 as PacketCodec>::lemma_roundtrip(m.spec_id(), rest);
    }
}

/// One statistic: its category, its id and its value.
pub struct Statistic {
    pub category_id: StatisticCategory,
    pub statistic_id: i32,
    pub value: i32,
}

/// The category, then the id and the value as VarInts.
impl PacketCodec for Statistic {
    type Model = (<StatisticCategory as PacketCodec>::Model, i32, i32);

    open spec fn model(&self) -> (<StatisticCategory as PacketCodec>::Model, i32, i32) {
        (self.category_id.model(), self.statistic_id.model(), self.value.model())
    }

    open spec fn spec_encode(m: (<StatisticCategory as PacketCodec>::Model, i32, i32)) -> Seq<u8> {
        <StatisticCategory as PacketCodec>::spec_encode(m.0)
            + <i32 as PacketCodec>::spec_encode(m.1) + <i32 as PacketCodec>::spec_encode(m.2)
    }

    open spec fn spec_decode(s: Seq<u8>) -> Result<(Self::Model, Seq<u8>), CodecError> {
        dec3::<StatisticCategory, i32, i32>(s)
    }

    open spec fn spec_decode_left(s: Seq<u8>) -> Seq<u8> {
        dec3_left::<StatisticCategory, i32, i32>(s)
    }

    open spec fn spec_valid(m: (<StatisticCategory as PacketCodec>::Model, i32, i32)) -> bool {
        <StatisticCategory as PacketCodec>::spec_valid(m.0)
            && <i32 as PacketCodec>::spec_valid(m.1)
            && <i32 as PacketCodec>::spec_valid(m.2)
    }

    fn encode(&self, buf: &mut Vec<u8>) -> (r: Result<(), CodecError>) {
        let _ = self.category_id.encode(buf);
        let _ = self.statistic_id.encode(buf);
        let _ = self.value.encode(buf);
        assert(buf@ =~= old(buf)@ + Self::spec_encode(self.model()));
        Ok(())
    }

    fn decode(buf: &mut &[u8]) -> (r: Result<Statistic, CodecError>) {
        let category_id = match StatisticCategory::decode(buf) {
            Ok(v) => v,
            Err(e) => return Err(e),
        };
        let statistic_id = match i32::decode(buf) {
            Ok(v) => v,
            Err(e) => return Err(e),
        };
        let value = match i32::decode(buf) {
            Ok(v) => v,
            Err(e) => return Err(e),
        };
        Ok(Statistic { category_id, statistic_id, value })
    }

    proof fn lemma_roundtrip(m: (<StatisticCategory as PacketCodec>::Model, i32, i32), rest: Seq<u8>) {
        lemma_dec3_roundtrip::<StatisticCategory, i32, i32>(m.0, m.1, m.2, rest);
    }
}

/// A list of statistics.
pub struct Statistics(pub Vec<Statistic>);

/// A VarInt count, then the statistics.
impl PacketCodec for Statistics {
    type Model = <Vec<Statistic> as PacketCodec>::Model;

    open spec fn model(&self) -> <Vec<Statistic> as PacketCodec>::Model {
        self.0.model()
    }

    open spec fn spec_encode(m: <Vec<Statistic> as PacketCodec>::Model) -> Seq<u8> {
        <Vec<Statistic> as PacketCodec>::spec_encode(m)
    }

    open spec fn spec_decode(s: Seq<u8>) -> Result<(Self::Model, Seq<u8>), CodecError> {
        <Vec<Statistic> as PacketCodec>::spec_decode(s)
    }

    open spec fn spec_decode_left(s: Seq<u8>) -> Seq<u8> {
        <Vec<Statistic> as PacketCodec>::spec_decode_left(s)
    }

    open spec fn spec_valid(m: <Vec<Statistic> as PacketCodec>::Model) -> bool {
        <Vec<Statistic> as PacketCodec>::spec_valid(m)
    }

    fn encode(&self, buf: &mut Vec<u8>) -> (r: Result<(), CodecError>) {
        self.0.encode(buf)
    }

    fn decode(buf: &mut &[u8]) -> (r: Result<Statistics, CodecError>) {
        match Vec::<Statistic>::decode(buf) {
            Ok(v) => Ok(Statistics(v)),
            Err(e) => Err(e),
        }
    }

    proof fn lemma_roundtrip(m: <Vec<Statistic> as PacketCodec>::Model, rest: Seq<u8>) {
        <Vec<Statistic> as PacketCodec>::lemma_roundtrip(m, rest);
    }
}

/// The category of a statistic.
#[derive(Debug, Clone, Copy, PartialEq, Eq)]
pub enum StatisticCategory {
    Mined,
    Crafted,
    Used,
    Broken,
    PickedUp,
    Dropped,
    Killed,
    KilledBy,
    Custom,
}

impl StatisticCategory {
    /// The number that stands for the variant on the wire.
    pub open spec fn spec_id(self) -> i32 {
        match self {
            StatisticCategory::Mined => 0,
            StatisticCategory::Crafted => 1,
            StatisticCategory::Used => 2,
            StatisticCategory::Broken => 3,
            StatisticCategory::PickedUp => 4,
            StatisticCategory::Dropped => 5,
            StatisticCategory::Killed => 6,
            StatisticCategory::KilledBy => 7,
            StatisticCategory::Custom => 8,
        }
    }

    /// The variant a number read from the wire stands for.
    pub open spec fn spec_from_id(v: i32) -> Option<StatisticCategory> {
        if v == 0 {
            Some(StatisticCategory::Mined)
        } else if v == 1 {
            Some(StatisticCategory::Crafted)
        } else if v == 2 {
            Some(StatisticCategory::Used)
        } else if v == 3 {
            Some(StatisticCategory::Broken)
        } else if v == 4 {
            Some(StatisticCategory::PickedUp)
        } else if v == 5 {
            Some(StatisticCategory::Dropped)
        } else if v == 6 {
            Some(StatisticCategory::Killed)
        } else if v == 7 {
            Some(StatisticCategory::KilledBy)
        } else if v == 8 {
            Some(StatisticCategory::Custom)
        } else {
            None
        }
    }

    /// The number that stands for the variant on the wire.
    pub fn id(&self) -> (r: i32)
        ensures
            r == self.spec_id(),
    {
        match self {
            StatisticCategory::Mined => 0,
            StatisticCategory::Crafted => 1,
            StatisticCategory::Used => 2,
            StatisticCategory::Broken => 3,
            StatisticCategory::PickedUp => 4,
            StatisticCategory::Dropped => 5,
            StatisticCategory::Killed => 6,
            StatisticCategory::KilledBy => 7,
            StatisticCategory::Custom => 8,
        }
    }

    /// The variant a number read from the wire stands for.
    pub fn from_id(v: i32) -> (r: Option<StatisticCategory>)
        ensures
            r == Self::spec_from_id(v),
    {
        if v == 0 {
            Some(StatisticCategory::Mined)
        } else if v == 1 {
            Some(StatisticCategory::Crafted)
        } else if v == 2 {
            Some(StatisticCategory::Used)
        } else if v == 3 {
            Some(StatisticCategory::Broken)
        } else if v == 4 {
            Some(StatisticCategory::PickedUp)
        } else if v == 5 {
            Some(StatisticCategory::Dropped)
        } else if v == 6 {
            Some(StatisticCategory::Killed)
        } else if v == 7 {
            Some(StatisticCategory::KilledBy)
        } else if v == 8 {
            Some(StatisticCategory::Custom)
        } else {
            None
        }
    }
}

/// The variant's number as a VarInt; a number that names no variant is refused.
impl PacketCodec for StatisticCategory {
    type Model = StatisticCategory;

    open spec fn model(&self) -> StatisticCategory {
        *self
    }

    open spec fn spec_encode(m: StatisticCategory) -> Seq<u8> {
        <i32 as PacketCodec>::spec_encode(m.spec_id())
    }

    open spec fn spec_decode(s: Seq<u8>) -> Result<(StatisticCategory, Seq<u8>), CodecError> {
        match <i32 as PacketCodec>::spec_decode(s) {
            Err(e) => Err(e),
            Ok((v, rest)) => match StatisticCategory::spec_from_id(v) {
                Some(x) => Ok((x, rest)),
                None => Err(
                    CodecError::InvalidEnumValue {
                        enum_name: "StatisticCategory",
                        value: v,
                        expected: "0..8",
                    },
                ),
            },
        }
    }

    open spec fn spec_decode_left(s: Seq<u8>) -> Seq<u8> {
        match <i32 as PacketCodec>::spec_decode(s) {
            Err(_) => <i32 as PacketCodec>::spec_decode_left(s),
            Ok((_, rest)) => rest,
        }
    }

    open spec fn spec_valid(m: StatisticCategory) -> bool {
        true
    }

    fn encode(&self, buf: &mut Vec<u8>) -> (r: Result<(), CodecError>) {
        self.id().encode(buf)
    }

    fn decode(buf: &mut &[u8]) -> (r: Result<StatisticCategory, CodecError>) {
        let value = match <i32 as PacketCodec>::decode(buf) {
            Ok(v) => v,
            Err(e) => return Err(e),
        };
        match StatisticCategory::from_id(value) {
            Some(x) => Ok(x),
            None => Err(
                CodecError::InvalidEnumValue {
                    enum_name: "StatisticCategory",
                    value,
                    expected: "0..8",
                },
            ),
        }
    }

    proof fn lemma_roundtrip(m: StatisticCategory, rest: Seq<u8>) {
        <i32 as PacketCodec>::lemma_roundtrip(m.spec_id(), rest);
    }
}

/// The player's statistics.
pub struct AwardStatistics {
    pub statistics: Statistics,
}

impl ClientboundPacketTrait for AwardStatistics {
    type Model = <Statistics as PacketCodec>::Model;

    open spec fn model(&self) -> <Statistics as PacketCodec>::Model {
        self.statistics.model()
    }

    open spec fn spec_id() -> i32 {
        0x03
    }

    open spec fn spec_decode(s: Seq<u8>) -> Result<(Self::Model, Seq<u8>), CodecError> {
        <Statistics as PacketCodec>::spec_decode(s)
    }

    open spec fn spec_decode_left(s: Seq<u8>) -> Seq<u8> {
        <Statistics as PacketCodec>::spec_decode_left(s)
    }

    fn packet_id(&self) -> (r: i32) {
        0x03
    }

    fn decode(buf: &mut &[u8]) -> (r: Result<AwardStatistics, CodecError>) {
        let statistics = match Statistics::decode(buf) {
            Ok(v) => v,
            Err(e) => return Err(e),
        };
        Ok(AwardStatistics { statistics })
    }
}

/// The difficulty of the world.
#[derive(Debug, Clone, Copy, PartialEq, Eq)]
pub enum Difficulty {
    Peaceful,
    Easy,
    Normal,
    Hard,
}

impl Difficulty {
    /// The number that stands for the variant on the wire.
    pub open spec fn spec_id(self) -> u8 {
        match self {
            Difficulty::Peaceful => 0,
            Difficulty::Easy => 1,
            Difficulty::Normal => 2,
            Difficulty::Hard => 3,
        }
    }

    /// The variant a number read from the wire stands for.
    pub open spec fn spec_from_id(v: u8) -> Option<Difficulty> {
        if v == 0 {
            Some(Difficulty::Peaceful)
        } else if v == 1 {
            Some(Difficulty::Easy)
        } else if v == 2 {
            Some(Difficulty::Normal)
        } else if v == 3 {
            Some(Difficulty::Hard)
        } else {
            None
        }
    }

    /// The number that stands for the variant on the wire.
    pub fn id(&self) -> (r: u8)
        ensures
            r == self.spec_id(),
    {
        match self {
            Difficulty::Peaceful => 0,
            Difficulty::Easy => 1,
            Difficulty::Normal => 2,
            Difficulty::Hard => 3,
        }
    }

    /// The variant a number read from the wire stands for.
    pub fn from_id(v: u8) -> (r: Option<Difficulty>)
        ensures
            r == Self::spec_from_id(v),
    {
        if v == 0 {
            Some(Difficulty::Peaceful)
        } else if v == 1 {
            Some(Difficulty::Easy)
        } else if v == 2 {
            Some(Difficulty::Normal)
        } else if v == 3 {
            Some(Difficulty::Hard)
        } else {
            None
        }
    }
}

/// The variant's number as one byte; a number that names no variant is refused.
impl PacketCodec for Difficulty {
    type Model = Difficulty;

    open spec fn model(&self) -> Difficulty {
        *self
    }

    open spec fn spec_encode(m: Difficulty) -> Seq<u8> {
        <u8 as PacketCodec>::spec_encode(m.spec_id())
    }

    open spec fn spec_decode(s: Seq<u8>) -> Result<(Difficulty, Seq<u8>), CodecError> {
        match <u8 as PacketCodec>::spec_decode(s) {
            Err(e) => Err(e),
            Ok((v, rest)) => match Difficulty::spec_from_id(v) {
                Some(x) => Ok((x, rest)),
                None => Err(
                    CodecError::InvalidEnumValue {
                        enum_name: "Difficulty",
                        value: v as i32,
                        expected: "0..3",
                    },
                ),
            },
        }
    }

    open spec fn spec_decode_left(s: Seq<u8>) -> Seq<u8> {
        match <u8 as PacketCodec>::spec_decode(s) {
            Err(_) => <u8 as PacketCodec>::spec_decode_left(s),
            Ok((_, rest)) => rest,
        }
    }

    open spec fn spec_valid(m: Difficulty) -> bool {
        true
    }

    fn encode(&self, buf: &mut Vec<u8>) -> (r: Result<(), CodecError>) {
        self.id().encode(buf)
    }

    fn decode(buf: &mut &[u8]) -> (r: Result<Difficulty, CodecError>) {
        let value = match <u8 as PacketCodec>::decode(buf) {
            Ok(v) => v,
            Err(e) => return Err(e),
        };
        match Difficulty::from_id(value) {
            Some(x) => Ok(x),
            None => Err(
                CodecError::InvalidEnumValue {
                    enum_name: "Difficulty",
                    value: value as i32,
                    expected: "0..3",
                },
            ),
        }
    }

    proof fn lemma_roundtrip(m: Difficulty, rest: Seq<u8>) {
        <u8 as PacketCodec>::lemma_roundtrip(m.spec_id(), rest);
    }
}

/// The world's difficulty, and whether it is locked.
pub struct ChangeDifficulty {
    pub difficulty: Difficulty,
    pub difficulty_locked: bool,
}

impl ClientboundPacketTrait for ChangeDifficulty {
    type Model = (<Difficulty as PacketCodec>::Model, bool);

    open spec fn model(&self) -> (<Difficulty as PacketCodec>::Model, bool) {
        (self.difficulty.model(), self.difficulty_locked.model())
    }

    open spec fn spec_id() -> i32 {
        0x0A
    }

    open spec fn spec_decode(s: Seq<u8>) -> Result<(Self::Model, Seq<u8>), CodecError> {
        dec2::<Difficulty, bool>(s)
    }

    open spec fn spec_decode_left(s: Seq<u8>) -> Seq<u8> {
        dec2_left::<Difficulty, bool>(s)
    }

    fn packet_id(&self) -> (r: i32) {
        0x0A
    }

    fn decode(buf: &mut &[u8]) -> (r: Result<ChangeDifficulty, CodecError>) {
        let difficulty = match Difficulty::decode(buf) {
            Ok(v) => v,
            Err(e) => return Err(e),
        };
        let difficulty_locked = match bool::decode(buf) {
            Ok(v) => v,
            Err(e) => return Err(e),
        };
        Ok(ChangeDifficulty { difficulty, difficulty_locked })
    }
}

/// A batch of chunks is done, with its size.
pub struct ChunkBatchFinished {
    pub batch_size: i32,
}

impl ClientboundPacketTrait for ChunkBatchFinished {
    type Model = i32;

    open spec fn model(&self) -> i32 {
        self.batch_size.model()
    }

    open spec fn spec_id() -> i32 {
        0x0B
    }

    open spec fn spec_decode(s: Seq<u8>) -> Result<(i32, Seq<u8>), CodecError> {
        <i32 as PacketCodec>::spec_decode(s)
    }

    open spec fn spec_decode_left(s: Seq<u8>) -> Seq<u8> {
        <i32 as PacketCodec>::spec_decode_left(s)
    }

    fn packet_id(&self) -> (r: i32) {
        0x0B
    }

    fn decode(buf: &mut &[u8]) -> (r: Result<ChunkBatchFinished, CodecError>) {
        let batch_size = match i32::decode(buf) {
            Ok(v) => v,
            Err(e) => return Err(e),
        };
        Ok(ChunkBatchFinished { batch_size })
    }
}

/// A batch of chunks begins; it has no fields.
pub struct ChunkBatchStart;

impl ClientboundPacketTrait for ChunkBatchStart {
    type Model = ();

    open spec fn model(&self) -> () {
        ()
    }

    open spec fn spec_id() -> i32 {
        0x0C
    }

    open spec fn spec_decode(s: Seq<u8>) -> Result<((), Seq<u8>), CodecError> {
        Ok(((), s))
    }

    open spec fn spec_decode_left(s: Seq<u8>) -> Seq<u8> {
        s
    }

    fn packet_id(&self) -> (r: i32) {
        0x0C
    }

    fn decode(buf: &mut &[u8]) -> (r: Result<ChunkBatchStart, CodecError>) {
        Ok(ChunkBatchStart)
    }
}

/// The biome data of one chunk.
pub struct ChunkBiome {
    pub chunk_x: i32,
    pub chunk_z: i32,
    pub data: Vec<u8>,
}

/// The chunk's coordinates as VarInts, then its data as a prefixed byte array.
impl PacketCodec for ChunkBiome {
    type Model = (i32, i32, Seq<u8>);

    open spec fn model(&self) -> (i32, i32, Seq<u8>) {
        (self.chunk_x.model(), self.chunk_z.model(), self.data.model())
    }

    open spec fn spec_encode(m: (i32, i32, Seq<u8>)) -> Seq<u8> {
        <i32 as PacketCodec>::spec_encode(m.0) + <i32 as PacketCodec>::spec_encode(m.1)
            + <Vec<u8> as PacketCodec>::spec_encode(m.2)
    }

    open spec fn spec_decode(s: Seq<u8>) -> Result<((i32, i32, Seq<u8>), Seq<u8>), CodecError> {
        dec3::<i32, i32, Vec<u8>>(s)
    }

    open spec fn spec_decode_left(s: Seq<u8>) -> Seq<u8> {
        dec3_left::<i32, i32, Vec<u8>>(s)
    }

    open spec fn spec_valid(m: (i32, i32, Seq<u8>)) -> bool {
        <i32 as PacketCodec>::spec_valid(m.0)
            && <i32 as PacketCodec>::spec_valid(m.1)
            && <Vec<u8> as PacketCodec>::spec_valid(m.2)
    }

    fn encode(&self, buf: &mut Vec<u8>) -> (r: Result<(), CodecError>) {
        let _ = self.chunk_x.encode(buf);
        let _ = self.chunk_z.encode(buf);
        let _ = self.data.encode(buf);
        assert(buf@ =~= old(buf)@ + Self::spec_encode(self.model()));
        Ok(())
    }

    fn decode(buf: &mut &[u8]) -> (r: Result<ChunkBiome, CodecError>) {
        let chunk_x = match i32::decode(buf) {
            Ok(v) => v,
            Err(e) => return Err(e),
        };
        let chunk_z = match i32::decode(buf) {
            Ok(v) => v,
            Err(e) => return Err(e),
        };
        let data = match Vec::<u8>::decode(buf) {
            Ok(v) => v,
            Err(e) => return Err(e),
        };
        Ok(ChunkBiome { chunk_x, chunk_z, data })
    }

    proof fn lemma_roundtrip(m: (i32, i32, Seq<u8>), rest: Seq<u8>) {
        lemma_dec3_roundtrip::<i32, i32, Vec<u8>>(m.0, m.1, m.2, rest);
    }
}

/// The biome data of several chunks.
pub struct ChunkBiomes {
    pub chunks_biome_data: Vec<ChunkBiome>,
}

impl ClientboundPacketTrait for ChunkBiomes {
    type Model = <Vec<ChunkBiome> as PacketCodec>::Model;

    open spec fn model(&self) -> <Vec<ChunkBiome> as PacketCodec>::Model {
        self.chunks_biome_data.model()
    }

    open spec fn spec_id() -> i32 {
        0x0D
    }

    open spec fn spec_decode(s: Seq<u8>) -> Result<(Self::Model, Seq<u8>), CodecError> {
        <Vec<ChunkBiome> as PacketCodec>::spec_decode(s)
    }

    open spec fn spec_decode_left(s: Seq<u8>) -> Seq<u8> {
        <Vec<ChunkBiome> as PacketCodec>::spec_decode_left(s)
    }

    fn packet_id(&self) -> (r: i32) {
        0x0D
    }

    fn decode(buf: &mut &[u8]) -> (r: Result<ChunkBiomes, CodecError>) {
        let chunks_biome_data = match Vec::<ChunkBiome>::decode(buf) {
            Ok(v) => v,
            Err(e) => return Err(e),
        };
        Ok(ChunkBiomes { chunks_biome_data })
    }
}

/// Clears the shown title, and resets its timing if asked.
pub struct ClearTitles {
    pub reset: bool,
}

impl ClientboundPacketTrait for ClearTitles {
    type Model = bool;

    open spec fn model(&self) -> bool {
        self.reset.model()
    }

    open spec fn spec_id() -> i32 {
        0x0E
    }

    open spec fn spec_decode(s: Seq<u8>) -> Result<(bool, Seq<u8>), CodecError> {
        <bool as PacketCodec>::spec_decode(s)
    }

    open spec fn spec_decode_left(s: Seq<u8>) -> Seq<u8> {
        <bool as PacketCodec>::spec_decode_left(s)
    }

    fn packet_id(&self) -> (r: i32) {
        0x0E
    }

    fn decode(buf: &mut &[u8]) -> (r: Result<ClearTitles, CodecError>) {
        let reset = match bool::decode(buf) {
            Ok(v) => v,
            Err(e) => return Err(e),
        };
        Ok(ClearTitles { reset })
    }
}

/// One suggestion for a command being typed, with an optional tooltip.
pub struct CommandSuggestion {
    pub match_str: String,
    pub tooltip: Option<TextComponent>,
}

/// The suggestion, then the boolean-prefixed tooltip.
impl PacketCodec for CommandSuggestion {
    type Model = (Seq<char>, <Option<TextComponent> as PacketCodec>::Model);

    open spec fn model(&self) -> (Seq<char>, <Option<TextComponent> as PacketCodec>::Model) {
        (self.match_str.model(), self.tooltip.model())
    }

    open spec fn spec_encode(m: (Seq<char>, <Option<TextComponent> as PacketCodec>::Model)) -> Seq<u8> {
        <String as PacketCodec>::spec_encode(m.0)
            + <Option<TextComponent> as PacketCodec>::spec_encode(m.1)
    }

    open spec fn spec_decode(s: Seq<u8>) -> Result<(Self::Model, Seq<u8>), CodecError> {
        dec2::<String, Option<TextComponent>>(s)
    }

    open spec fn spec_decode_left(s: Seq<u8>) -> Seq<u8> {
        dec2_left::<String, Option<TextComponent>>(s)
    }

    open spec fn spec_valid(m: (Seq<char>, <Option<TextComponent> as PacketCodec>::Model)) -> bool {
        <String as PacketCodec>::spec_valid(m.0)
            && <Option<TextComponent> as PacketCodec>::spec_valid(m.1)
    }

    fn encode(&self, buf: &mut Vec<u8>) -> (r: Result<(), CodecError>) {
        let _ = self.match_str.encode(buf);
        let _ = self.tooltip.encode(buf);
        assert(buf@ =~= old(buf)@ + Self::spec_encode(self.model()));
        Ok(())
    }

    fn decode(buf: &mut &[u8]) -> (r: Result<CommandSuggestion, CodecError>) {
        let match_str = match String::decode(buf) {
            Ok(v) => v,
            Err(e) => return Err(e),
        };
        let tooltip = match Option::<TextComponent>::decode(buf) {
            Ok(v) => v,
            Err(e) => return Err(e),
        };
        Ok(CommandSuggestion { match_str, tooltip })
    }

    proof fn lemma_roundtrip(m: (Seq<char>, <Option<TextComponent> as PacketCodec>::Model), rest: Seq<u8>) {
        lemma_dec2_roundtrip::<String, Option<TextComponent>>(m.0, m.1, rest);
    }
}

/// The suggestions for a command being typed.
pub struct CommandSuggestionsResponse {
    pub transaction_id: i32,
    pub start: i32,
    pub length: i32,
    pub matches: Vec<CommandSuggestion>,
}

impl ClientboundPacketTrait for CommandSuggestionsResponse {
    type Model = (i32, i32, i32, <Vec<CommandSuggestion> as PacketCodec>::Model);

    open spec fn model(&self) -> (i32, i32, i32, <Vec<CommandSuggestion> as PacketCodec>::Model) {
        (self.transaction_id.model(), self.start.model(), self.length.model(), self.matches.model())
    }

    open spec fn spec_id() -> i32 {
        0x0F
    }

    open spec fn spec_decode(s: Seq<u8>) -> Result<(Self::Model, Seq<u8>), CodecError> {
        dec4::<i32, i32, i32, Vec<CommandSuggestion>>(s)
    }

    open spec fn spec_decode_left(s: Seq<u8>) -> Seq<u8> {
        dec4_left::<i32, i32, i32, Vec<CommandSuggestion>>(s)
    }

    fn packet_id(&self) -> (r: i32) {
        0x0F
    }

    fn decode(buf: &mut &[u8]) -> (r: Result<CommandSuggestionsResponse, CodecError>) {
        let transaction_id = match i32::decode(buf) {
            Ok(v) => v,
            Err(e) => return Err(e),
        };
        let start = match i32::decode(buf) {
            Ok(v) => v,
            Err(e) => return Err(e),
        };
        let length = match i32::decode(buf) {
            Ok(v) => v,
            Err(e) => return Err(e),
        };
        let matches = match Vec::<CommandSuggestion>::decode(buf) {
            Ok(v) => v,
            Err(e) => return Err(e),
        };
        Ok(CommandSuggestionsResponse { transaction_id, start, length, matches })
    }
}
/// The bytes of an optional field that is written only when present.
pub open spec fn present_bytes<T: PacketCodec>(o: Option<T::Model>) -> Seq<u8> {
    match o {
        Some(x) => T::spec_encode(x),
        None => Seq::empty(),
    }
}

/// What reading an optional field gives: a value when `cond` holds, else
/// nothing, with nothing read.
pub open spec fn decode_when<T: PacketCodec>(cond: bool, s: Seq<u8>) -> Result<
    (Option<T::Model>, Seq<u8>),
    CodecError,
> {
    if cond {
        match T::spec_decode(s) {
            Err(e) => Err(e),
            Ok((x, r)) => Ok((Some(x), r)),
        }
    } else {
        Ok((None, s))
    }
}

/// A field present exactly when `cond` holds, and valid, reads back.
pub proof fn lemma_decode_when<T: PacketCodec>(cond: bool, o: Option<T::Model>, rest: Seq<u8>)
    requires
        (o is Some) == cond,
        o matches Some(x) ==> T::spec_valid(x),
    ensures
        decode_when::<T>(cond, present_bytes::<T>(o) + rest) == Ok::<
            (Option<T::Model>, Seq<u8>),
            CodecError,
        >((o, rest)),
{
    match o {
        Some(x) => {
            T::lemma_roundtrip(x, rest);
        },
        None => {
            assert(present_bytes::<T>(o) + rest =~= rest);
        },
    }
}

/// A node of the command graph. Which of the optional fields are sent is
/// given by `flags`: bit `0x08` a redirect, the low two bits the node type
/// (1 a literal with a name; 2 an argument with a name, a parser and its
/// properties), bit `0x10` a suggestions type.
pub struct CommandNode {
    pub flags: u8,
    pub children: Vec<i32>,
    pub redirect_node: Option<i32>,
    pub name: Option<String>,
    pub parser: Option<Identifier>,
    pub properties: Option<Vec<u8>>,
    pub suggestions_type: Option<Identifier>,
}

/// The mathematical value of a command node.
pub ghost struct CommandNodeModel {
    pub flags: u8,
    pub children: Seq<i32>,
    pub redirect_node: Option<i32>,
    pub name: Option<Seq<char>>,
    pub parser: Option<Seq<char>>,
    pub properties: Option<Seq<u8>>,
    pub suggestions_type: Option<Seq<char>>,
}

/// Whether the flags ask for a redirect.
pub open spec fn has_redirect(flags: u8) -> bool {
    flags & 0x08u8 != 0
}

/// Whether the flags ask for a suggestions type.
pub open spec fn has_suggestions(flags: u8) -> bool {
    flags & 0x10u8 != 0
}

/// The node type in the flags' low two bits.
pub open spec fn node_type(flags: u8) -> u8 {
    flags & 0x03u8
}

/// The bytes of the redirect, when the flags ask for one.
pub open spec fn redirect_bytes(m: CommandNodeModel) -> Seq<u8> {
    if has_redirect(m.flags) {
        present_bytes::<i32>(m.redirect_node)
    } else {
        Seq::empty()
    }
}

/// The bytes of the suggestions type, when the flags ask for one.
pub open spec fn suggestion_bytes(m: CommandNodeModel) -> Seq<u8> {
    if has_suggestions(m.flags) {
        present_bytes::<String>(m.suggestions_type)
    } else {
        Seq::empty()
    }
}

/// The bytes of the name, parser and properties that the node type selects.
pub open spec fn named_bytes(m: CommandNodeModel) -> Seq<u8> {
    if node_type(m.flags) == 1 {
        present_bytes::<String>(m.name)
    } else if node_type(m.flags) == 2 {
        present_bytes::<String>(m.name) + present_bytes::<String>(m.parser) + present_bytes::<
            Vec<u8>,
        >(m.properties)
    } else {
        Seq::empty()
    }
}

/// What reading the name, parser and properties of a node of type `t` gives.
pub open spec fn named_decode(t: u8, s: Seq<u8>) -> Result<
    ((Option<Seq<char>>, Option<Seq<char>>, Option<Seq<u8>>), Seq<u8>),
    CodecError,
> {
    if t == 1 {
        match <String as PacketCodec>::spec_decode(s) {
            Err(e) => Err(e),
            Ok((n, r)) => Ok(((Some(n), None, None), r)),
        }
    } else if t == 2 {
        match dec3::<String, String, Vec<u8>>(s) {
            Err(e) => Err(e),
            Ok(((n, p, props), r)) => Ok(((Some(n), Some(p), Some(props)), r)),
        }
    } else {
        Ok(((None, None, None), s))
    }
}

/// What is left of `s` when reading the name, parser and properties of a node
/// of type `t` fails.
pub open spec fn named_left(t: u8, s: Seq<u8>) -> Seq<u8> {
    if t == 1 {
        <String as PacketCodec>::spec_decode_left(s)
    } else if t == 2 {
        dec3_left::<String, String, Vec<u8>>(s)
    } else {
        s
    }
}

/// Nodes whose optional fields are present exactly as their flags say, with
/// strings and arrays that fit their length prefixes.
pub open spec fn command_node_valid(m: CommandNodeModel) -> bool {
    let t = node_type(m.flags);
    &&& <Vec<i32> as PacketCodec>::spec_valid(m.children)
    &&& (m.redirect_node is Some) == has_redirect(m.flags)
    &&& (m.name is Some) == (t == 1 || t == 2)
    &&& (m.parser is Some) == (t == 2)
    &&& (m.properties is Some) == (t == 2)
    &&& (m.suggestions_type is Some) == has_suggestions(m.flags)
    &&& (m.name matches Some(n) ==> <String as PacketCodec>::spec_valid(n))
    &&& (m.parser matches Some(p) ==> <String as PacketCodec>::spec_valid(p))
    &&& (m.properties matches Some(p) ==> <Vec<u8> as PacketCodec>::spec_valid(p))
    &&& (m.suggestions_type matches Some(s) ==> <String as PacketCodec>::spec_valid(s))
}

/// The flags, the children, then the optional fields the flags select; a field
/// the flags select but that is absent is left out, and one present that they
/// do not select is not written.
impl PacketCodec for CommandNode {
    type Model = CommandNodeModel;

    open spec fn model(&self) -> CommandNodeModel {
        CommandNodeModel {
            flags: self.flags,
            children: self.children.model(),
            redirect_node: option_model(self.redirect_node),
            name: option_model(self.name),
            parser: option_model(self.parser),
            properties: option_model(self.properties),
            suggestions_type: option_model(self.suggestions_type),
        }
    }

    open spec fn spec_encode(m: CommandNodeModel) -> Seq<u8> {
        <u8 as PacketCodec>::spec_encode(m.flags)
            + <Vec<i32> as PacketCodec>::spec_encode(m.children)
            + redirect_bytes(m) + named_bytes(m) + suggestion_bytes(m)
    }

    open spec fn spec_decode(s: Seq<u8>) -> Result<(CommandNodeModel, Seq<u8>), CodecError> {
        match dec2::<u8, Vec<i32>>(s) {
            Err(e) => Err(e),
            Ok(((flags, children), r1)) => match decode_when::<i32>(has_redirect(flags), r1) {
                Err(e) => Err(e),
                Ok((redirect_node, r2)) => match named_decode(node_type(flags), r2) {
                    Err(e) => Err(e),
                    Ok(((name, parser, properties), r3)) => match decode_when::<String>(
                        has_suggestions(flags),
                        r3,
                    ) {
                        Err(e) => Err(e),
                        Ok((suggestions_type, r4)) => Ok(
                            (
                                CommandNodeModel {
                                    flags,
                                    children,
                                    redirect_node,
                                    name,
                                    parser,
                                    properties,
                                    suggestions_type,
                                },
                                r4,
                            ),
                        ),
                    },
                },
            },
        }
    }

    open spec fn spec_decode_left(s: Seq<u8>) -> Seq<u8> {
        match dec2::<u8, Vec<i32>>(s) {
            Err(_) => dec2_left::<u8, Vec<i32>>(s),
            Ok(((flags, _), r1)) => match decode_when::<i32>(has_redirect(flags), r1) {
                Err(_) => <i32 as PacketCodec>::spec_decode_left(r1),
                Ok((_, r2)) => match named_decode(node_type(flags), r2) {
                    Err(_) => named_left(node_type(flags), r2),
                    Ok((_, r3)) => <String as PacketCodec>::spec_decode_left(r3),
                },
            },
        }
    }

    open spec fn spec_valid(m: CommandNodeModel) -> bool {
        command_node_valid(m)
    }

    fn encode(&self, buf: &mut Vec<u8>) -> (r: Result<(), CodecError>) {
        let ghost m = self.model();
        let _ = self.flags.encode(buf);
        let _ = self.children.encode(buf);
        let ghost mut acc = <u8 as PacketCodec>::spec_encode(m.flags)
            + <Vec<i32> as PacketCodec>::spec_encode(
            m.children,
        );
        proof {
            lemma_concat_associative(
                old(buf)@,
                <u8 as PacketCodec>::spec_encode(m.flags),
                <Vec<i32> as PacketCodec>::spec_encode(m.children),
            );
        }
        self.encode_redirect(buf);
        proof {
            lemma_concat_associative(old(buf)@, acc, redirect_bytes(m));
            acc = acc + redirect_bytes(m);
        }
        self.encode_named(buf);
        proof {
            lemma_concat_associative(old(buf)@, acc, named_bytes(m));
            acc = acc + named_bytes(m);
        }
        self.encode_suggestions(buf);
        proof {
            lemma_concat_associative(old(buf)@, acc, suggestion_bytes(m));
        }
        Ok(())
    }

    fn decode(buf: &mut &[u8]) -> (r: Result<CommandNode, CodecError>) {
        let flags = match u8::decode(buf) {
            Ok(v) => v,
            Err(e) => return Err(e),
        };
        let children = match Vec::<i32>::decode(buf) {
            Ok(v) => v,
            Err(e) => return Err(e),
        };
        let redirect_node = if flags & 0x08 != 0 {
            match i32::decode(buf) {
                Ok(v) => Some(v),
                Err(e) => return Err(e),
            }
        } else {
            None
        };
        let node_type = flags & 0x03;
        let mut name: Option<String> = None;
        let mut parser: Option<Identifier> = None;
        let mut properties: Option<Vec<u8>> = None;
        if node_type == 1 {
            match String::decode(buf) {
                Ok(v) => {
                    name = Some(v);
                },
                Err(e) => return Err(e),
            }
        }
        if node_type == 2 {
            match String::decode(buf) {
                Ok(v) => {
                    name = Some(v);
                },
                Err(e) => return Err(e),
            }
            match String::decode(buf) {
                Ok(v) => {
                    parser = Some(v);
                },
                Err(e) => return Err(e),
            }
            match Vec::<u8>::decode(buf) {
                Ok(v) => {
                    properties = Some(v);
                },
                Err(e) => return Err(e),
            }
        }
        let suggestions_type = if flags & 0x10 != 0 {
            match String::decode(buf) {
                Ok(v) => Some(v),
                Err(e) => return Err(e),
            }
        } else {
            None
        };
        Ok(CommandNode {
            flags,
            children,
            redirect_node,
            name,
            parser,
            properties,
            suggestions_type,
        })
    }

    proof fn lemma_roundtrip(m: CommandNodeModel, rest: Seq<u8>) {
        lemma_command_node_roundtrip(m, rest);
    }
}

impl CommandNode {
    /// Writes the redirect when the flags ask for one and it is present.
    fn encode_redirect(&self, buf: &mut Vec<u8>)
        ensures
            final(buf)@ == old(buf)@ + redirect_bytes(self.model()),
    {
        if self.flags & 0x08 != 0 {
            if let Some(v) = self.redirect_node {
                let _ = v.encode(buf);
            }
        }
        assert(buf@ =~= old(buf)@ + redirect_bytes(self.model()));
    }

    /// Writes the name, parser and properties the node type selects, those of
    /// them that are present.
    fn encode_named(&self, buf: &mut Vec<u8>)
        ensures
            final(buf)@ == old(buf)@ + named_bytes(self.model()),
    {
        let node_type = self.flags & 0x03;
        if node_type == 1 {
            if let Some(name) = &self.name {
                let _ = name.encode(buf);
            }
        }
        if node_type == 2 {
            if let Some(name) = &self.name {
                let _ = name.encode(buf);
            }
            if let Some(parser) = &self.parser {
                let _ = parser.encode(buf);
            }
            if let Some(props) = &self.properties {
                let _ = props.encode(buf);
            }
        }
        assert(buf@ =~= old(buf)@ + named_bytes(self.model()));
    }

    /// Writes the suggestions type when the flags ask for one and it is present.
    fn encode_suggestions(&self, buf: &mut Vec<u8>)
        ensures
            final(buf)@ == old(buf)@ + suggestion_bytes(self.model()),
    {
        if self.flags & 0x10 != 0 {
            if let Some(s) = &self.suggestions_type {
                let _ = s.encode(buf);
            }
        }
        assert(buf@ =~= old(buf)@ + suggestion_bytes(self.model()));
    }
}

/// The name, parser and properties of a valid node read back.
pub proof fn lemma_named_roundtrip(m: CommandNodeModel, rest: Seq<u8>)
    requires
        command_node_valid(m),
    ensures
        named_decode(node_type(m.flags), named_bytes(m) + rest) == Ok::<
            ((Option<Seq<char>>, Option<Seq<char>>, Option<Seq<u8>>), Seq<u8>),
            CodecError,
        >(((m.name, m.parser, m.properties), rest)),
{
    let t = node_type(m.flags);
    if t == 1 {
        <String as PacketCodec>::lemma_roundtrip(m.name->0, rest);
    } else if t == 2 {
        lemma_dec3_roundtrip::<String, String, Vec<u8>>(
            m.name->0,
            m.parser->0,
            m.properties->0,
            rest,
        );
    } else {
        assert(named_bytes(m) + rest =~= rest);
    }
}

/// A valid node's bytes read back as the node.
pub proof fn lemma_command_node_roundtrip(m: CommandNodeModel, rest: Seq<u8>)
    requires
        command_node_valid(m),
    ensures
        <CommandNode as PacketCodec>::spec_decode(<CommandNode as PacketCodec>::spec_encode(m)
            + rest)
            == Ok::<(CommandNodeModel, Seq<u8>), CodecError>((m, rest)),
{
    let a = <u8 as PacketCodec>::spec_encode(m.flags);
    let b = <Vec<i32> as PacketCodec>::spec_encode(m.children);
    let r3 = suggestion_bytes(m) + rest;
    let r2 = named_bytes(m) + r3;
    let r1 = redirect_bytes(m) + r2;
    assert(a + b + redirect_bytes(m) + named_bytes(m) + suggestion_bytes(m) + rest =~= a + b + r1);
    lemma_dec2_roundtrip::<u8, Vec<i32>>(m.flags, m.children, r1);
    if has_redirect(m.flags) {
        lemma_decode_when::<i32>(true, m.redirect_node, r2);
    } else {
        assert(r1 =~= r2);
    }
    lemma_named_roundtrip(m, r3);
    if has_suggestions(m.flags) {
        lemma_decode_when::<String>(true, m.suggestions_type, rest);
    } else {
        assert(r3 =~= rest);
    }
}

/// The command graph.
pub struct Commands {
    pub nodes: Vec<CommandNode>,
    pub root_index: i32,
}

impl ClientboundPacketTrait for Commands {
    type Model = (Seq<CommandNodeModel>, i32);

    open spec fn model(&self) -> (Seq<CommandNodeModel>, i32) {
        (self.nodes.model(), self.root_index)
    }

    open spec fn spec_id() -> i32 {
        0x10
    }

    open spec fn spec_decode(s: Seq<u8>) -> Result<(Self::Model, Seq<u8>), CodecError> {
        dec2::<Vec<CommandNode>, i32>(s)
    }

    open spec fn spec_decode_left(s: Seq<u8>) -> Seq<u8> {
        dec2_left::<Vec<CommandNode>, i32>(s)
    }

    fn packet_id(&self) -> (r: i32) {
        0x10
    }

    fn decode(buf: &mut &[u8]) -> (r: Result<Commands, CodecError>) {
        let nodes = match Vec::<CommandNode>::decode(buf) {
            Ok(v) => v,
            Err(e) => return Err(e),
        };
        let root_index = match i32::decode(buf) {
            Ok(v) => v,
            Err(e) => return Err(e),
        };
        Ok(Commands { nodes, root_index })
    }
}

/// The values of `EntityAnimationType` travel as fixed numbers: SwingMainArm 0, TakeDamage 1, LeaveBed 2, SwingOffHand 3, CriticalEffect 4, MagicCriticalEffect 5.
/// Each is written as the byte of its number and read back from it, whatever
/// follows; every other byte is refused.
/// TakeDamage is written but not read back.
pub proof fn lemma_entity_animation_type_wire(rest: Seq<u8>)
    ensures
        <EntityAnimationType as PacketCodec>::spec_encode(EntityAnimationType::SwingMainArm) == seq![0u8],
        <EntityAnimationType as PacketCodec>::spec_encode(EntityAnimationType::TakeDamage) == seq![1u8],
        <EntityAnimationType as PacketCodec>::spec_encode(EntityAnimationType::LeaveBed) == seq![2u8],
        <EntityAnimationType as PacketCodec>::spec_encode(EntityAnimationType::SwingOffHand) == seq![3u8],
        <EntityAnimationType as PacketCodec>::spec_encode(EntityAnimationType::CriticalEffect) == seq![4u8],
        <EntityAnimationType as PacketCodec>::spec_encode(EntityAnimationType::MagicCriticalEffect) == seq![5u8],
        <EntityAnimationType as PacketCodec>::spec_decode(seq![0u8] + rest) == Ok::<(EntityAnimationType, Seq<u8>), CodecError>(
            (EntityAnimationType::SwingMainArm, rest),
        ),
        <EntityAnimationType as PacketCodec>::spec_decode(seq![2u8] + rest) == Ok::<(EntityAnimationType, Seq<u8>), CodecError>(
            (EntityAnimationType::LeaveBed, rest),
        ),
        <EntityAnimationType as PacketCodec>::spec_decode(seq![3u8] + rest) == Ok::<(EntityAnimationType, Seq<u8>), CodecError>(
            (EntityAnimationType::SwingOffHand, rest),
        ),
        <EntityAnimationType as PacketCodec>::spec_decode(seq![4u8] + rest) == Ok::<(EntityAnimationType, Seq<u8>), CodecError>(
            (EntityAnimationType::CriticalEffect, rest),
        ),
        <EntityAnimationType as PacketCodec>::spec_decode(seq![5u8] + rest) == Ok::<(EntityAnimationType, Seq<u8>), CodecError>(
            (EntityAnimationType::MagicCriticalEffect, rest),
        ),
        forall|v: u8|
            v != 0 && v != 2 && v != 3 && v != 4 && v != 5 ==> #[trigger] <EntityAnimationType as PacketCodec>::spec_decode(
                seq![v] + rest,
            ) == Err::<(EntityAnimationType, Seq<u8>), CodecError>(
                (CodecError::InvalidEnumValue { value: v as i32, enum_name: "EntityAnimationType", expected: "0..5" }),
            ),
{
    assert((seq![0u8] + rest).drop_first() =~= rest);
    assert((seq![1u8] + rest).drop_first() =~= rest);
    assert((seq![2u8] + rest).drop_first() =~= rest);
    assert((seq![3u8] + rest).drop_first() =~= rest);
    assert((seq![4u8] + rest).drop_first() =~= rest);
    assert((seq![5u8] + rest).drop_first() =~= rest);
    assert forall|v: u8| v != 0 && v != 2 && v != 3 && v != 4 && v != 5 implies #[trigger] <EntityAnimationType as PacketCodec>::spec_decode(
        seq![v] + rest,
    ) == Err::<(EntityAnimationType, Seq<u8>), CodecError>(
        (CodecError::InvalidEnumValue { value: v as i32, enum_name: "EntityAnimationType", expected: "0..5" }),
    ) by {
        assert((seq![v] + rest)[0] == v);
    }
}


/// The values of `StatisticCategory` travel as fixed numbers: Mined 0, Crafted 1, Used 2, Broken 3, PickedUp 4, Dropped 5, Killed 6, KilledBy 7, Custom 8.
/// Each is written as the one-byte VarInt of its number and read back from
/// it, whatever follows; every other number below 128 is refused.
pub proof fn lemma_statistic_category_wire(rest: Seq<u8>)
    ensures
        <StatisticCategory as PacketCodec>::spec_encode(StatisticCategory::Mined) == seq![0u8],
        <StatisticCategory as PacketCodec>::spec_encode(StatisticCategory::Crafted) == seq![1u8],
        <StatisticCategory as PacketCodec>::spec_encode(StatisticCategory::Used) == seq![2u8],
        <StatisticCategory as PacketCodec>::spec_encode(StatisticCategory::Broken) == seq![3u8],
        <StatisticCategory as PacketCodec>::spec_encode(StatisticCategory::PickedUp) == seq![4u8],
        <StatisticCategory as PacketCodec>::spec_encode(StatisticCategory::Dropped) == seq![5u8],
        <StatisticCategory as PacketCodec>::spec_encode(StatisticCategory::Killed) == seq![6u8],
        <StatisticCategory as PacketCodec>::spec_encode(StatisticCategory::KilledBy) == seq![7u8],
        <StatisticCategory as PacketCodec>::spec_encode(StatisticCategory::Custom) == seq![8u8],
        <StatisticCategory as PacketCodec>::spec_decode(seq![0u8] + rest) == Ok::<(StatisticCategory, Seq<u8>), CodecError>(
            (StatisticCategory::Mined, rest),
        ),
        <StatisticCategory as PacketCodec>::spec_decode(seq![1u8] + rest) == Ok::<(StatisticCategory, Seq<u8>), CodecError>(
            (StatisticCategory::Crafted, rest),
        ),
        <StatisticCategory as PacketCodec>::spec_decode(seq![2u8] + rest) == Ok::<(StatisticCategory, Seq<u8>), CodecError>(
            (StatisticCategory::Used, rest),
        ),
        <StatisticCategory as PacketCodec>::spec_decode(seq![3u8] + rest) == Ok::<(StatisticCategory, Seq<u8>), CodecError>(
            (StatisticCategory::Broken, rest),
        ),
        <StatisticCategory as PacketCodec>::spec_decode(seq![4u8] + rest) == Ok::<(StatisticCategory, Seq<u8>), CodecError>(
            (StatisticCategory::PickedUp, rest),
        ),
        <StatisticCategory as PacketCodec>::spec_decode(seq![5u8] + rest) == Ok::<(StatisticCategory, Seq<u8>), CodecError>(
            (StatisticCategory::Dropped, rest),
        ),
        <StatisticCategory as PacketCodec>::spec_decode(seq![6u8] + rest) == Ok::<(StatisticCategory, Seq<u8>), CodecError>(
            (StatisticCategory::Killed, rest),
        ),
        <StatisticCategory as PacketCodec>::spec_decode(seq![7u8] + rest) == Ok::<(StatisticCategory, Seq<u8>), CodecError>(
            (StatisticCategory::KilledBy, rest),
        ),
        <StatisticCategory as PacketCodec>::spec_decode(seq![8u8] + rest) == Ok::<(StatisticCategory, Seq<u8>), CodecError>(
            (StatisticCategory::Custom, rest),
        ),
        forall|v: u8|
            v < 128 && v != 0 && v != 1 && v != 2 && v != 3 && v != 4 && v != 5 && v != 6 && v != 7 && v != 8 ==> #[trigger] <StatisticCategory as PacketCodec>::spec_decode(
                seq![v] + rest,
            ) == Err::<(StatisticCategory, Seq<u8>), CodecError>(
                (CodecError::InvalidEnumValue { value: v as i32, enum_name: "StatisticCategory", expected: "0..8" }),
            ),
{
    lemma_varint_one_byte(0u8, rest);
    lemma_varint_one_byte(1u8, rest);
    lemma_varint_one_byte(2u8, rest);
    lemma_varint_one_byte(3u8, rest);
    lemma_varint_one_byte(4u8, rest);
    lemma_varint_one_byte(5u8, rest);
    lemma_varint_one_byte(6u8, rest);
    lemma_varint_one_byte(7u8, rest);
    lemma_varint_one_byte(8u8, rest);
    assert forall|v: u8| v < 128 && v != 0 && v != 1 && v != 2 && v != 3 && v != 4 && v != 5 && v != 6 && v != 7 && v != 8 implies #[trigger] <StatisticCategory as PacketCodec>::spec_decode(
        seq![v] + rest,
    ) == Err::<(StatisticCategory, Seq<u8>), CodecError>(
        (CodecError::InvalidEnumValue { value: v as i32, enum_name: "StatisticCategory", expected: "0..8" }),
    ) by {
        lemma_varint_one_byte(v, rest);
    }
}


/// The values of `Difficulty` travel as fixed numbers: Peaceful 0, Easy 1, Normal 2, Hard 3.
/// Each is written as the byte of its number and read back from it, whatever
/// follows; every other byte is refused.
pub proof fn lemma_difficulty_wire(rest: Seq<u8>)
    ensures
        <Difficulty as PacketCodec>::spec_encode(Difficulty::Peaceful) == seq![0u8],
        <Difficulty as PacketCodec>::spec_encode(Difficulty::Easy) == seq![1u8],
        <Difficulty as PacketCodec>::spec_encode(Difficulty::Normal) == seq![2u8],
        <Difficulty as PacketCodec>::spec_encode(Difficulty::Hard) == seq![3u8],
        <Difficulty as PacketCodec>::spec_decode(seq![0u8] + rest) == Ok::<(Difficulty, Seq<u8>), CodecError>(
            (Difficulty::Peaceful, rest),
        ),
        <Difficulty as PacketCodec>::spec_decode(seq![1u8] + rest) == Ok::<(Difficulty, Seq<u8>), CodecError>(
            (Difficulty::Easy, rest),
        ),
        <Difficulty as PacketCodec>::spec_decode(seq![2u8] + rest) == Ok::<(Difficulty, Seq<u8>), CodecError>(
            (Difficulty::Normal, rest),
        ),
        <Difficulty as PacketCodec>::spec_decode(seq![3u8] + rest) == Ok::<(Difficulty, Seq<u8>), CodecError>(
            (Difficulty::Hard, rest),
        ),
        forall|v: u8|
            v != 0 && v != 1 && v != 2 && v != 3 ==> #[trigger] <Difficulty as PacketCodec>::spec_decode(
                seq![v] + rest,
            ) == Err::<(Difficulty, Seq<u8>), CodecError>(
                (CodecError::InvalidEnumValue { value: v as i32, enum_name: "Difficulty", expected: "0..3" }),
            ),
{
    assert((seq![0u8] + rest).drop_first() =~= rest);
    assert((seq![1u8] + rest).drop_first() =~= rest);
    assert((seq![2u8] + rest).drop_first() =~= rest);
    assert((seq![3u8] + rest).drop_first() =~= rest);
    assert forall|v: u8| v != 0 && v != 1 && v != 2 && v != 3 implies #[trigger] <Difficulty as PacketCodec>::spec_decode(
        seq![v] + rest,
    ) == Err::<(Difficulty, Seq<u8>), CodecError>(
        (CodecError::InvalidEnumValue { value: v as i32, enum_name: "Difficulty", expected: "0..3" }),
    ) by {
        assert((seq![v] + rest)[0] == v);
    }
}

/// The fixed ids of the play packets this module defines, each in its
/// direction: a packet is known on the wire by this number alone.
pub proof fn lemma_play_packet_ids()
    ensures
        <BundleDelimiter as ClientboundPacketTrait>::spec_id() == 0x00,
        <EntityAnimation as ClientboundPacketTrait>::spec_id() == 0x02,
        <AwardStatistics as ClientboundPacketTrait>::spec_id() == 0x03,
        <ChangeDifficulty as ClientboundPacketTrait>::spec_id() == 0x0A,
        <ChunkBatchFinished as ClientboundPacketTrait>::spec_id() == 0x0B,
        <ChunkBatchStart as ClientboundPacketTrait>::spec_id() == 0x0C,
        <ChunkBiomes as ClientboundPacketTrait>::spec_id() == 0x0D,
        <ClearTitles as ClientboundPacketTrait>::spec_id() == 0x0E,
        <CommandSuggestionsResponse as ClientboundPacketTrait>::spec_id() == 0x0F,
        <Commands as ClientboundPacketTrait>::spec_id() == 0x10,
{
}

/// Where a command node's flags keep what they select: bit 3 (`0x08`) asks
/// for a redirect, bit 4 (`0x10`) for a suggestions type, and the low two bits
/// give the node type.
pub proof fn lemma_command_flag_bits(f: u8)
    ensures
        has_redirect(f) == ((f / 8) % 2 == 1),
        has_suggestions(f) == ((f / 16) % 2 == 1),
        node_type(f) == f % 4,
{
    assert(((f & 0x08u8) != 0) == ((f / 8) % 2 == 1)) by (bit_vector);
    assert(((f & 0x10u8) != 0) == ((f / 16) % 2 == 1)) by (bit_vector);
    assert((f & 0x03u8) == f % 4) by (bit_vector);
}

/// Where a packed position keeps its coordinates: the low 26 bits of `x` times
/// `2^38`, the low 26 bits of `z` times `2^12`, and the low 12 bits of `y`,
/// as an unsigned 64-bit number.
pub proof fn lemma_position_layout(x: i32, y: i32, z: i32)
    ensures
        pack_position(x, y, z) as u64 == ((x as u64) % 0x400_0000) * 0x40_0000_0000 + ((z as u64)
            % 0x400_0000) * 0x1000 + (y as u64) % 0x1000,
{
    assert(((((x as i64) & 0x3FFFFFF) << 38u64) | (((z as i64) & 0x3FFFFFF) << 12u64) | ((y as i64)
        & 0xFFF)) as u64 == ((x as u64) % 0x400_0000) * 0x40_0000_0000 + ((z as u64) % 0x400_0000)
        * 0x1000 + (y as u64) % 0x1000) by (bit_vector);
}

} // verus!
