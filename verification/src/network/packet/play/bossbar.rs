//! Boss bars: the bars shown at the top of the screen.
use vstd::prelude::*;

use crate::network::packet::TextComponent;
use crate::utils::fields::{dec2, dec2_left, dec5, dec5_left, lemma_dec2_roundtrip,
    lemma_dec5_roundtrip};
use crate::utils::varint::lemma_varint_one_byte;
use crate::utils::{CodecError, PacketCodec, Uuid};

verus! {

/// The color of a boss bar.
#[derive(Debug, Clone, Copy)]
pub enum BossBarColor {
    Pink,
    Blue,
    Red,
    Green,
    Yellow,
    Purple,
    White,
}

impl BossBarColor {
    /// The number that stands for the variant on the wire.
    pub open spec fn spec_id(self) -> i32 {
        match self {
            BossBarColor::Pink => 0,
            BossBarColor::Blue => 1,
            BossBarColor::Red => 2,
            BossBarColor::Green => 3,
            BossBarColor::Yellow => 4,
            BossBarColor::Purple => 5,
            BossBarColor::White => 6,
        }
    }

    /// The variant a number read from the wire stands for.
    pub open spec fn spec_from_id(v: i32) -> Option<BossBarColor> {
        if v == 0 {
            Some(BossBarColor::Pink)
        } else if v == 1 {
            Some(BossBarColor::Blue)
        } else if v == 2 {
            Some(BossBarColor::Red)
        } else if v == 3 {
            Some(BossBarColor::Green)
        } else if v == 4 {
            Some(BossBarColor::Yellow)
        } else if v == 5 {
            Some(BossBarColor::Purple)
        } else if v == 6 {
            Some(BossBarColor::White)
        } else {
            None
        }
    }

    /// The number that stands for the variant on the wire.
    pub fn id(&self) -> (r: i32)
        ensures
            r == self.spec_id(),
    {
        match self {
            BossBarColor::Pink => 0,
            BossBarColor::Blue => 1,
            BossBarColor::Red => 2,
            BossBarColor::Green => 3,
            BossBarColor::Yellow => 4,
            BossBarColor::Purple => 5,
            BossBarColor::White => 6,
        }
    }

    /// The variant a number read from the wire stands for.
    pub fn from_id(v: i32) -> (r: Option<BossBarColor>)
        ensures
            r == Self::spec_from_id(v),
    {
        if v == 0 {
            Some(BossBarColor::Pink)
        } else if v == 1 {
            Some(BossBarColor::Blue)
        } else if v == 2 {
            Some(BossBarColor::Red)
        } else if v == 3 {
            Some(BossBarColor::Green)
        } else if v == 4 {
            Some(BossBarColor::Yellow)
        } else if v == 5 {
            Some(BossBarColor::Purple)
        } else if v == 6 {
            Some(BossBarColor::White)
        } else {
            None
        }
    }
}

/// The variant's number as a VarInt; a number that names no variant is refused.
impl PacketCodec for BossBarColor {
    type Model = BossBarColor;

    open spec fn model(&self) -> BossBarColor {
        *self
    }

    open spec fn spec_encode(m: BossBarColor) -> Seq<u8> {
        <i32 as PacketCodec>::spec_encode(m.spec_id())
    }

    open spec fn spec_decode(s: Seq<u8>) -> Result<(BossBarColor, Seq<u8>), CodecError> {
        match <i32 as PacketCodec>::spec_decode(s) {
            Err(e) => Err(e),
            Ok((v, rest)) => match BossBarColor::spec_from_id(v) {
                Some(x) => Ok((x, rest)),
                None => Err(
                    CodecError::InvalidEnumValue {
                        enum_name: "BossBarColor",
                        value: v,
                        expected: "0..6",
                    },
                ),
            },
        }
    }

    open spec fn spec_decode_left(s: Seq<u8>) -> Seq<u8> {
        match <i32 as PacketCodec>::spec_decode(s) {
            Err(_) => <i32 as PacketCodec>::spec_decode_left(s),
            Ok((_, rest)) => rest,
        }
    }

    open spec fn spec_valid(m: BossBarColor) -> bool {
        true
    }

    fn encode(&self, buf: &mut Vec<u8>) -> (r: Result<(), CodecError>) {
        self.id().encode(buf)
    }

    fn decode(buf: &mut &[u8]) -> (r: Result<BossBarColor, CodecError>) {
        let value = match <i32 as PacketCodec>::decode(buf) {
            Ok(v) => v,
            Err(e) => return Err(e),
        };
        match BossBarColor::from_id(value) {
            Some(x) => Ok(x),
            None => Err(
                CodecError::InvalidEnumValue { enum_name: "BossBarColor", value, expected: "0..6" },
            ),
        }
    }

    proof fn lemma_roundtrip(m: BossBarColor, rest: Seq<u8>) {
        <i32 as PacketCodec>::lemma_roundtrip(m.spec_id(), rest);
    }
}

/// How a boss bar is divided into notches.
#[derive(Debug, Clone, Copy)]
pub enum BossBarDivision {
    NoDivision,
    SixNotches,
    TenNotches,
    TwelveNotches,
    TwentyNotches,
}

impl BossBarDivision {
    /// The number that stands for the variant on the wire.
    pub open spec fn spec_id(self) -> i32 {
        match self {
            BossBarDivision::NoDivision => 0,
            BossBarDivision::SixNotches => 1,
            BossBarDivision::TenNotches => 2,
            BossBarDivision::TwelveNotches => 3,
            BossBarDivision::TwentyNotches => 4,
        }
    }

    /// The variant a number read from the wire stands for.
    pub open spec fn spec_from_id(v: i32) -> Option<BossBarDivision> {
        if v == 0 {
            Some(BossBarDivision::NoDivision)
        } else if v == 1 {
            Some(BossBarDivision::SixNotches)
        } else if v == 2 {
            Some(BossBarDivision::TenNotches)
        } else if v == 3 {
            Some(BossBarDivision::TwelveNotches)
        } else if v == 4 {
            Some(BossBarDivision::TwentyNotches)
        } else {
            None
        }
    }

    /// The number that stands for the variant on the wire.
    pub fn id(&self) -> (r: i32)
        ensures
            r == self.spec_id(),
    {
        match self {
            BossBarDivision::NoDivision => 0,
            BossBarDivision::SixNotches => 1,
            BossBarDivision::TenNotches => 2,
            BossBarDivision::TwelveNotches => 3,
            BossBarDivision::TwentyNotches => 4,
        }
    }

    /// The variant a number read from the wire stands for.
    pub fn from_id(v: i32) -> (r: Option<BossBarDivision>)
        ensures
            r == Self::spec_from_id(v),
    {
        if v == 0 {
            Some(BossBarDivision::NoDivision)
        } else if v == 1 {
            Some(BossBarDivision::SixNotches)
        } else if v == 2 {
            Some(BossBarDivision::TenNotches)
        } else if v == 3 {
            Some(BossBarDivision::TwelveNotches)
        } else if v == 4 {
            Some(BossBarDivision::TwentyNotches)
        } else {
            None
        }
    }
}

/// The variant's number as a VarInt; a number that names no variant is refused.
impl PacketCodec for BossBarDivision {
    type Model = BossBarDivision;

    open spec fn model(&self) -> BossBarDivision {
        *self
    }

    open spec fn spec_encode(m: BossBarDivision) -> Seq<u8> {
        <i32 as PacketCodec>::spec_encode(m.spec_id())
    }

    open spec fn spec_decode(s: Seq<u8>) -> Result<(BossBarDivision, Seq<u8>), CodecError> {
        match <i32 as PacketCodec>::spec_decode(s) {
            Err(e) => Err(e),
            Ok((v, rest)) => match BossBarDivision::spec_from_id(v) {
                Some(x) => Ok((x, rest)),
                None => Err(
                    CodecError::InvalidEnumValue {
                        enum_name: "BossBarDivision",
                        value: v,
                        expected: "0..4",
                    },
                ),
            },
        }
    }

    open spec fn spec_decode_left(s: Seq<u8>) -> Seq<u8> {
        match <i32 as PacketCodec>::spec_decode(s) {
            Err(_) => <i32 as PacketCodec>::spec_decode_left(s),
            Ok((_, rest)) => rest,
        }
    }

    open spec fn spec_valid(m: BossBarDivision) -> bool {
        true
    }

    fn encode(&self, buf: &mut Vec<u8>) -> (r: Result<(), CodecError>) {
        self.id().encode(buf)
    }

    fn decode(buf: &mut &[u8]) -> (r: Result<BossBarDivision, CodecError>) {
        let value = match <i32 as PacketCodec>::decode(buf) {
            Ok(v) => v,
            Err(e) => return Err(e),
        };
        match BossBarDivision::from_id(value) {
            Some(x) => Ok(x),
            None => Err(
                CodecError::InvalidEnumValue {
                    enum_name: "BossBarDivision",
                    value,
                    expected: "0..4",
                },
            ),
        }
    }

    proof fn lemma_roundtrip(m: BossBarDivision, rest: Seq<u8>) {
        <i32 as PacketCodec>::lemma_roundtrip(m.spec_id(), rest);
    }
}

/// What is done to a boss bar. A health is a fraction from 0 to 1, held as the
/// IEEE-754 bits of its `f32`.
#[derive(Debug, Clone)]
pub enum BossBarAction {
    Add { title: TextComponent, health: u32, color: BossBarColor, division: BossBarDivision, flags: u8 },
    Remove,
    UpdateHealth { health: u32 },
    UpdateTitle { title: TextComponent },
    UpdateStyle { color: BossBarColor, division: BossBarDivision },
    UpdateFlags { flags: u8 },
}

/// The mathematical value of a boss bar action.
pub ghost enum BossBarActionModel {
    Add { title: Seq<char>, health: u32, color: BossBarColor, division: BossBarDivision, flags: u8 },
    Remove,
    UpdateHealth { health: u32 },
    UpdateTitle { title: Seq<char> },
    UpdateStyle { color: BossBarColor, division: BossBarDivision },
    UpdateFlags { flags: u8 },
}

/// The model of an action.
pub open spec fn action_model(a: BossBarAction) -> BossBarActionModel {
    match a {
        BossBarAction::Add { title, health, color, division, flags } => BossBarActionModel::Add {
            title: title.0@,
            health,
            color,
            division,
            flags,
        },
        BossBarAction::Remove => BossBarActionModel::Remove,
        BossBarAction::UpdateHealth { health } => BossBarActionModel::UpdateHealth { health },
        BossBarAction::UpdateTitle { title } => BossBarActionModel::UpdateTitle { title: title.0@ },
        BossBarAction::UpdateStyle { color, division } => BossBarActionModel::UpdateStyle {
            color,
            division,
        },
        BossBarAction::UpdateFlags { flags } => BossBarActionModel::UpdateFlags { flags },
    }
}

/// The bytes of an action: its number as a VarInt, then its fields.
pub open spec fn action_bytes(a: BossBarActionModel) -> Seq<u8> {
    match a {
        BossBarActionModel::Add { title, health, color, division, flags } => <i32 as PacketCodec>::spec_encode(0)
            + <TextComponent as PacketCodec>::spec_encode(title)
                + <u32 as PacketCodec>::spec_encode(health)
            + <BossBarColor as PacketCodec>::spec_encode(color)
                + <BossBarDivision as PacketCodec>::spec_encode(division)
            + <u8 as PacketCodec>::spec_encode(flags),
        BossBarActionModel::Remove => <i32 as PacketCodec>::spec_encode(1),
        BossBarActionModel::UpdateHealth { health } => <i32 as PacketCodec>::spec_encode(2)
            + <u32 as PacketCodec>::spec_encode(health),
        BossBarActionModel::UpdateTitle { title } => <i32 as PacketCodec>::spec_encode(3)
            + <TextComponent as PacketCodec>::spec_encode(title),
        BossBarActionModel::UpdateStyle { color, division } => <i32 as PacketCodec>::spec_encode(4)
            + <BossBarColor as PacketCodec>::spec_encode(color)
                + <BossBarDivision as PacketCodec>::spec_encode(division),
        BossBarActionModel::UpdateFlags { flags } => <i32 as PacketCodec>::spec_encode(5)
            + <u8 as PacketCodec>::spec_encode(flags),
    }
}

/// What reading the fields of the action numbered `id` from the front of `s`
/// gives.
pub open spec fn action_fields_decode(id: i32, s: Seq<u8>) -> Result<(BossBarActionModel, Seq<u8>), CodecError> {
    if id == 0 {
        match dec5::<TextComponent, u32, BossBarColor, BossBarDivision, u8>(s) {
            Err(e) => Err(e),
            Ok(((title, health, color, division, flags), r)) => Ok(
                (BossBarActionModel::Add { title, health, color, division, flags }, r),
            ),
        }
    } else if id == 1 {
        Ok((BossBarActionModel::Remove, s))
    } else if id == 2 {
        match <u32 as PacketCodec>::spec_decode(s) {
            Err(e) => Err(e),
            Ok((health, r)) => Ok((BossBarActionModel::UpdateHealth { health }, r)),
        }
    } else if id == 3 {
        match <TextComponent as PacketCodec>::spec_decode(s) {
            Err(e) => Err(e),
            Ok((title, r)) => Ok((BossBarActionModel::UpdateTitle { title }, r)),
        }
    } else if id == 4 {
        match dec2::<BossBarColor, BossBarDivision>(s) {
            Err(e) => Err(e),
            Ok(((color, division), r)) => Ok((BossBarActionModel::UpdateStyle { color, division }, r)),
        }
    } else if id == 5 {
        match <u8 as PacketCodec>::spec_decode(s) {
            Err(e) => Err(e),
            Ok((flags, r)) => Ok((BossBarActionModel::UpdateFlags { flags }, r)),
        }
    } else {
        Err(CodecError::InvalidEnumValue {
            value: id,
            enum_name: "BossBarAction",
            expected: "0..5",
        })
    }
}

/// What is left of `s` when reading the fields of the action numbered `id`
/// fails; a number that names no action reads nothing more.
pub open spec fn action_fields_left(id: i32, s: Seq<u8>) -> Seq<u8> {
    if id == 0 {
        dec5_left::<TextComponent, u32, BossBarColor, BossBarDivision, u8>(s)
    } else if id == 2 {
        <u32 as PacketCodec>::spec_decode_left(s)
    } else if id == 3 {
        <TextComponent as PacketCodec>::spec_decode_left(s)
    } else if id == 4 {
        dec2_left::<BossBarColor, BossBarDivision>(s)
    } else if id == 5 {
        <u8 as PacketCodec>::spec_decode_left(s)
    } else {
        s
    }
}

/// Actions whose titles fit their length prefix.
pub open spec fn action_valid(a: BossBarActionModel) -> bool {
    match a {
        BossBarActionModel::Add { title, .. } => <TextComponent as PacketCodec>::spec_valid(title),
        BossBarActionModel::UpdateTitle { title } => <TextComponent as PacketCodec>::spec_valid(title),
        _ => true,
    }
}

/// A boss bar and what is done to it.
#[derive(Debug, Clone)]
pub struct BossBar {
    pub uuid: Uuid,
    pub action: BossBarAction,
}

/// The UUID, then the action.
impl PacketCodec for BossBar {
    type Model = (Seq<u8>, BossBarActionModel);

    open spec fn model(&self) -> (Seq<u8>, BossBarActionModel) {
        (self.uuid.model(), action_model(self.action))
    }

    open spec fn spec_encode(m: (Seq<u8>, BossBarActionModel)) -> Seq<u8> {
        <Uuid as PacketCodec>::spec_encode(m.0) + action_bytes(m.1)
    }

    open spec fn spec_decode(s: Seq<u8>) -> Result<(Self::Model, Seq<u8>), CodecError> {
        match dec2::<Uuid, i32>(s) {
            Err(e) => Err(e),
            Ok(((uuid, id), r)) => match action_fields_decode(id, r) {
                Err(e) => Err(e),
                Ok((a, r2)) => Ok(((uuid, a), r2)),
            },
        }
    }

    open spec fn spec_decode_left(s: Seq<u8>) -> Seq<u8> {
        match dec2::<Uuid, i32>(s) {
            Err(_) => dec2_left::<Uuid, i32>(s),
            Ok(((_, id), r)) => action_fields_left(id, r),
        }
    }

    open spec fn spec_valid(m: (Seq<u8>, BossBarActionModel)) -> bool {
        <Uuid as PacketCodec>::spec_valid(m.0) && action_valid(m.1)
    }

    fn encode(&self, buf: &mut Vec<u8>) -> (r: Result<(), CodecError>) {
        let _ = self.uuid.encode(buf);
        let ghost mid = buf@;
        match &self.action {
            BossBarAction::Add { title, health, color, division, flags } => {
                let _ = 0i32.encode(buf);
                let _ = title.encode(buf);
                let _ = health.encode(buf);
                let _ = color.encode(buf);
                let _ = division.encode(buf);
                let _ = flags.encode(buf);
            },
            BossBarAction::Remove => {
                let _ = 1i32.encode(buf);
            },
            BossBarAction::UpdateHealth { health } => {
                let _ = 2i32.encode(buf);
                let _ = health.encode(buf);
            },
            BossBarAction::UpdateTitle { title } => {
                let _ = 3i32.encode(buf);
                let _ = title.encode(buf);
            },
            BossBarAction::UpdateStyle { color, division } => {
                let _ = 4i32.encode(buf);
                let _ = color.encode(buf);
                let _ = division.encode(buf);
            },
            BossBarAction::UpdateFlags { flags } => {
                let _ = 5i32.encode(buf);
                let _ = flags.encode(buf);
            },
        }
        assert(buf@ =~= mid + action_bytes(action_model(self.action)));
        assert(buf@ =~= old(buf)@ + Self::spec_encode(self.model()));
        Ok(())
    }

    fn decode(buf: &mut &[u8]) -> (r: Result<BossBar, CodecError>) {
        let uuid = match Uuid::decode(buf) {
            Ok(v) => v,
            Err(e) => return Err(e),
        };
        let action_id = match i32::decode(buf) {
            Ok(v) => v,
            Err(e) => return Err(e),
        };
        let action = if action_id == 0 {
            let title = match TextComponent::decode(buf) {
                Ok(v) => v,
                Err(e) => return Err(e),
            };
            let health = match u32::decode(buf) {
                Ok(v) => v,
                Err(e) => return Err(e),
            };
            let color = match BossBarColor::decode(buf) {
                Ok(v) => v,
                Err(e) => return Err(e),
            };
            let division = match BossBarDivision::decode(buf) {
                Ok(v) => v,
                Err(e) => return Err(e),
            };
            let flags = match u8::decode(buf) {
                Ok(v) => v,
                Err(e) => return Err(e),
            };
            BossBarAction::Add { title, health, color, division, flags }
        } else if action_id == 1 {
            BossBarAction::Remove
        } else if action_id == 2 {
            match u32::decode(buf) {
                Ok(health) => BossBarAction::UpdateHealth { health },
                Err(e) => return Err(e),
            }
        } else if action_id == 3 {
            match TextComponent::decode(buf) {
                Ok(title) => BossBarAction::UpdateTitle { title },
                Err(e) => return Err(e),
            }
        } else if action_id == 4 {
            let color = match BossBarColor::decode(buf) {
                Ok(v) => v,
                Err(e) => return Err(e),
            };
            let division = match BossBarDivision::decode(buf) {
                Ok(v) => v,
                Err(e) => return Err(e),
            };
            BossBarAction::UpdateStyle { color, division }
        } else if action_id == 5 {
            match u8::decode(buf) {
                Ok(flags) => BossBarAction::UpdateFlags { flags },
                Err(e) => return Err(e),
            }
        } else {
            return Err(
                CodecError::InvalidEnumValue {
                    value: action_id,
                    enum_name: "BossBarAction",
                    expected: "0..5",
                },
            );
        };
        Ok(BossBar { uuid, action })
    }

    proof fn lemma_roundtrip(m: (Seq<u8>, BossBarActionModel), rest: Seq<u8>) {
        let a = m.1;
        let tail = action_bytes(a) + rest;
        <Uuid as PacketCodec>::lemma_roundtrip(m.0, tail);
        assert(<Uuid as PacketCodec>::spec_encode(m.0) + action_bytes(a)
            + rest =~= <Uuid as PacketCodec>::spec_encode(m.0) + tail);
        lemma_action_roundtrip(a, rest);
    }
}

/// The bytes of a valid action read back as its number, then its fields.
#[verifier::spinoff_prover]
pub proof fn lemma_action_roundtrip(a: BossBarActionModel, rest: Seq<u8>)
    requires
        action_valid(a),
    ensures
        match <i32 as PacketCodec>::spec_decode(action_bytes(a) + rest) {
            Ok((id, r)) => action_fields_decode(id, r) == Ok::<(BossBarActionModel, Seq<u8>), CodecError>((a, rest)),
            Err(_) => false,
        },
{
    match a {
        BossBarActionModel::Add { title, health, color, division, flags } => {
            let f = <TextComponent as PacketCodec>::spec_encode(title)
                + <u32 as PacketCodec>::spec_encode(health)
                + <BossBarColor as PacketCodec>::spec_encode(color)
                    + <BossBarDivision as PacketCodec>::spec_encode(division)
                + <u8 as PacketCodec>::spec_encode(flags);
            <i32 as PacketCodec>::lemma_roundtrip(0, f + rest);
            assert(action_bytes(a) + rest =~= <i32 as PacketCodec>::spec_encode(0) + (f + rest));
            lemma_dec5_roundtrip::<TextComponent, u32, BossBarColor, BossBarDivision, u8>(
                title,
                health,
                color,
                division,
                flags,
                rest,
            );
        },
        BossBarActionModel::Remove => {
            <i32 as PacketCodec>::lemma_roundtrip(1, rest);
        },
        BossBarActionModel::UpdateHealth { health } => {
            <i32 as PacketCodec>::lemma_roundtrip(2, <u32 as PacketCodec>::spec_encode(health)
                + rest);
            assert(action_bytes(a) + rest =~= <i32 as PacketCodec>::spec_encode(2)
                + (<u32 as PacketCodec>::spec_encode(health) + rest));
            <u32 as PacketCodec>::lemma_roundtrip(health, rest);
        },
        BossBarActionModel::UpdateTitle { title } => {
            <i32 as PacketCodec>::lemma_roundtrip(3, <TextComponent as PacketCodec>::spec_encode(title)
                + rest);
            assert(action_bytes(a) + rest =~= <i32 as PacketCodec>::spec_encode(3)
                + (<TextComponent as PacketCodec>::spec_encode(title) + rest));
            <TextComponent as PacketCodec>::lemma_roundtrip(title, rest);
        },
        BossBarActionModel::UpdateStyle { color, division } => {
            let f = <BossBarColor as PacketCodec>::spec_encode(color)
                + <BossBarDivision as PacketCodec>::spec_encode(division);
            <i32 as PacketCodec>::lemma_roundtrip(4, f + rest);
            assert(action_bytes(a) + rest =~= <i32 as PacketCodec>::spec_encode(4) + (f + rest));
            lemma_dec2_roundtrip::<BossBarColor, BossBarDivision>(color, division, rest);
        },
        BossBarActionModel::UpdateFlags { flags } => {
            <i32 as PacketCodec>::lemma_roundtrip(5, <u8 as PacketCodec>::spec_encode(flags)
                + rest);
            assert(action_bytes(a) + rest =~= <i32 as PacketCodec>::spec_encode(5)
                + (<u8 as PacketCodec>::spec_encode(flags) + rest));
            <u8 as PacketCodec>::lemma_roundtrip(flags, rest);
        },
    }
}

/// The values of `BossBarColor` travel as fixed numbers: Pink 0, Blue 1, Red 2, Green 3, Yellow 4, Purple 5, White 6.
/// Each is written as the one-byte VarInt of its number and read back from
/// it, whatever follows; every other number below 128 is refused.
pub proof fn lemma_boss_bar_color_wire(rest: Seq<u8>)
    ensures
        <BossBarColor as PacketCodec>::spec_encode(BossBarColor::Pink) == seq![0u8],
        <BossBarColor as PacketCodec>::spec_encode(BossBarColor::Blue) == seq![1u8],
        <BossBarColor as PacketCodec>::spec_encode(BossBarColor::Red) == seq![2u8],
        <BossBarColor as PacketCodec>::spec_encode(BossBarColor::Green) == seq![3u8],
        <BossBarColor as PacketCodec>::spec_encode(BossBarColor::Yellow) == seq![4u8],
        <BossBarColor as PacketCodec>::spec_encode(BossBarColor::Purple) == seq![5u8],
        <BossBarColor as PacketCodec>::spec_encode(BossBarColor::White) == seq![6u8],
        <BossBarColor as PacketCodec>::spec_decode(seq![0u8] + rest) == Ok::<(BossBarColor, Seq<u8>), CodecError>(
            (BossBarColor::Pink, rest),
        ),
        <BossBarColor as PacketCodec>::spec_decode(seq![1u8] + rest) == Ok::<(BossBarColor, Seq<u8>), CodecError>(
            (BossBarColor::Blue, rest),
        ),
        <BossBarColor as PacketCodec>::spec_decode(seq![2u8] + rest) == Ok::<(BossBarColor, Seq<u8>), CodecError>(
            (BossBarColor::Red, rest),
        ),
        <BossBarColor as PacketCodec>::spec_decode(seq![3u8] + rest) == Ok::<(BossBarColor, Seq<u8>), CodecError>(
            (BossBarColor::Green, rest),
        ),
        <BossBarColor as PacketCodec>::spec_decode(seq![4u8] + rest) == Ok::<(BossBarColor, Seq<u8>), CodecError>(
            (BossBarColor::Yellow, rest),
        ),
        <BossBarColor as PacketCodec>::spec_decode(seq![5u8] + rest) == Ok::<(BossBarColor, Seq<u8>), CodecError>(
            (BossBarColor::Purple, rest),
        ),
        <BossBarColor as PacketCodec>::spec_decode(seq![6u8] + rest) == Ok::<(BossBarColor, Seq<u8>), CodecError>(
            (BossBarColor::White, rest),
        ),
        forall|v: u8|
            v < 128 && v != 0 && v != 1 && v != 2 && v != 3 && v != 4 && v != 5 && v != 6 ==> #[trigger] <BossBarColor as PacketCodec>::spec_decode(
                seq![v] + rest,
            ) == Err::<(BossBarColor, Seq<u8>), CodecError>(
                (CodecError::InvalidEnumValue { value: v as i32, enum_name: "BossBarColor", expected: "0..6" }),
            ),
{
    lemma_varint_one_byte(0u8, rest);
    lemma_varint_one_byte(1u8, rest);
    lemma_varint_one_byte(2u8, rest);
    lemma_varint_one_byte(3u8, rest);
    lemma_varint_one_byte(4u8, rest);
    lemma_varint_one_byte(5u8, rest);
    lemma_varint_one_byte(6u8, rest);
    assert forall|v: u8| v < 128 && v != 0 && v != 1 && v != 2 && v != 3 && v != 4 && v != 5 && v != 6 implies #[trigger] <BossBarColor as PacketCodec>::spec_decode(
        seq![v] + rest,
    ) == Err::<(BossBarColor, Seq<u8>), CodecError>(
        (CodecError::InvalidEnumValue { value: v as i32, enum_name: "BossBarColor", expected: "0..6" }),
    ) by {
        lemma_varint_one_byte(v, rest);
    }
}


/// The values of `BossBarDivision` travel as fixed numbers: NoDivision 0, SixNotches 1, TenNotches 2, TwelveNotches 3, TwentyNotches 4.
/// Each is written as the one-byte VarInt of its number and read back from
/// it, whatever follows; every other number below 128 is refused.
pub proof fn lemma_boss_bar_division_wire(rest: Seq<u8>)
    ensures
        <BossBarDivision as PacketCodec>::spec_encode(BossBarDivision::NoDivision) == seq![0u8],
        <BossBarDivision as PacketCodec>::spec_encode(BossBarDivision::SixNotches) == seq![1u8],
        <BossBarDivision as PacketCodec>::spec_encode(BossBarDivision::TenNotches) == seq![2u8],
        <BossBarDivision as PacketCodec>::spec_encode(BossBarDivision::TwelveNotches) == seq![3u8],
        <BossBarDivision as PacketCodec>::spec_encode(BossBarDivision::TwentyNotches) == seq![4u8],
        <BossBarDivision as PacketCodec>::spec_decode(seq![0u8] + rest) == Ok::<(BossBarDivision, Seq<u8>), CodecError>(
            (BossBarDivision::NoDivision, rest),
        ),
        <BossBarDivision as PacketCodec>::spec_decode(seq![1u8] + rest) == Ok::<(BossBarDivision, Seq<u8>), CodecError>(
            (BossBarDivision::SixNotches, rest),
        ),
        <BossBarDivision as PacketCodec>::spec_decode(seq![2u8] + rest) == Ok::<(BossBarDivision, Seq<u8>), CodecError>(
            (BossBarDivision::TenNotches, rest),
        ),
        <BossBarDivision as PacketCodec>::spec_decode(seq![3u8] + rest) == Ok::<(BossBarDivision, Seq<u8>), CodecError>(
            (BossBarDivision::TwelveNotches, rest),
        ),
        <BossBarDivision as PacketCodec>::spec_decode(seq![4u8] + rest) == Ok::<(BossBarDivision, Seq<u8>), CodecError>(
            (BossBarDivision::TwentyNotches, rest),
        ),
        forall|v: u8|
            v < 128 && v != 0 && v != 1 && v != 2 && v != 3 && v != 4 ==> #[trigger] <BossBarDivision as PacketCodec>::spec_decode(
                seq![v] + rest,
            ) == Err::<(BossBarDivision, Seq<u8>), CodecError>(
                (CodecError::InvalidEnumValue { value: v as i32, enum_name: "BossBarDivision", expected: "0..4" }),
            ),
{
    lemma_varint_one_byte(0u8, rest);
    lemma_varint_one_byte(1u8, rest);
    lemma_varint_one_byte(2u8, rest);
    lemma_varint_one_byte(3u8, rest);
    lemma_varint_one_byte(4u8, rest);
    assert forall|v: u8| v < 128 && v != 0 && v != 1 && v != 2 && v != 3 && v != 4 implies #[trigger] <BossBarDivision as PacketCodec>::spec_decode(
        seq![v] + rest,
    ) == Err::<(BossBarDivision, Seq<u8>), CodecError>(
        (CodecError::InvalidEnumValue { value: v as i32, enum_name: "BossBarDivision", expected: "0..4" }),
    ) by {
        lemma_varint_one_byte(v, rest);
    }
}

/// Boss bar actions travel as fixed numbers, each followed by its fields: Add
/// 0, Remove 1, UpdateHealth 2, UpdateTitle 3, UpdateStyle 4, UpdateFlags 5;
/// every other number below 128 is refused.
pub proof fn lemma_boss_bar_action_numbers(
    title: Seq<char>,
    health: u32,
    color: BossBarColor,
    division: BossBarDivision,
    flags: u8,
    rest: Seq<u8>,
)
    ensures
        action_bytes(BossBarActionModel::Add { title, health, color, division, flags }) == seq![0u8]
            + <TextComponent as PacketCodec>::spec_encode(title) + <u32 as PacketCodec>::spec_encode(
            health,
        ) + <BossBarColor as PacketCodec>::spec_encode(color)
            + <BossBarDivision as PacketCodec>::spec_encode(division) + <u8 as PacketCodec>::spec_encode(
            flags,
        ),
        action_bytes(BossBarActionModel::Remove) == seq![1u8],
        action_bytes(BossBarActionModel::UpdateHealth { health }) == seq![2u8]
            + <u32 as PacketCodec>::spec_encode(health),
        action_bytes(BossBarActionModel::UpdateTitle { title }) == seq![3u8]
            + <TextComponent as PacketCodec>::spec_encode(title),
        action_bytes(BossBarActionModel::UpdateStyle { color, division }) == seq![4u8]
            + <BossBarColor as PacketCodec>::spec_encode(color)
            + <BossBarDivision as PacketCodec>::spec_encode(division),
        action_bytes(BossBarActionModel::UpdateFlags { flags }) == seq![5u8]
            + <u8 as PacketCodec>::spec_encode(flags),
        forall|v: u8|
            6 <= v < 128 ==> #[trigger] action_fields_decode(v as i32, rest) == Err::<
                (BossBarActionModel, Seq<u8>),
                CodecError,
            >((CodecError::InvalidEnumValue { value: v as i32, enum_name: "BossBarAction", expected: "0..5" })),
{
    lemma_varint_one_byte(0u8, rest);
    lemma_varint_one_byte(1u8, rest);
    lemma_varint_one_byte(2u8, rest);
    lemma_varint_one_byte(3u8, rest);
    lemma_varint_one_byte(4u8, rest);
    lemma_varint_one_byte(5u8, rest);
}

} // verus!
