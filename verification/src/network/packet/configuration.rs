//! The configuration phase: registries, tags, resource packs and client
//! settings, exchanged before play starts.
use vstd::prelude::*;
use vstd::seq_lib::lemma_concat_associative;

use crate::utils::fields::{dec2, dec2_left, dec3, dec3_left, dec5, dec5_left, lemma_dec2_roundtrip,
    lemma_dec3_roundtrip};
use crate::utils::varint::lemma_varint_one_byte;
use crate::utils::{ClientboundPacketTrait, CodecError, Identifier, Int, Long, PacketCodec,
    ServerboundPacketTrait, Uuid};

pub mod skin_parts;

verus! {

/// The server asks for a stored cookie.
pub struct CookieRequest {
    pub key: Identifier,
}

impl ClientboundPacketTrait for CookieRequest {
    type Model = Seq<char>;

    open spec fn model(&self) -> Seq<char> {
        self.key.model()
    }

    open spec fn spec_id() -> i32 {
        0x00
    }

    open spec fn spec_decode(s: Seq<u8>) -> Result<(Seq<char>, Seq<u8>), CodecError> {
        <Identifier as PacketCodec>::spec_decode(s)
    }

    open spec fn spec_decode_left(s: Seq<u8>) -> Seq<u8> {
        <Identifier as PacketCodec>::spec_decode_left(s)
    }

    fn packet_id(&self) -> (r: i32) {
        0x00
    }

    fn decode(buf: &mut &[u8]) -> (r: Result<CookieRequest, CodecError>) {
        let key = match String::decode(buf) {
            Ok(v) => v,
            Err(e) => return Err(e),
        };
        Ok(CookieRequest { key })
    }
}

/// Which chat messages the client wants to see.
#[derive(Debug, Clone, Copy, PartialEq, Eq)]
pub enum ChatMode {
    Enabled,
    CommandsOnly,
    Hidden,
}

impl ChatMode {
    /// The number that stands for the variant on the wire.
    pub open spec fn spec_id(self) -> i32 {
        match self {
            ChatMode::Enabled => 0,
            ChatMode::CommandsOnly => 1,
            ChatMode::Hidden => 2,
        }
    }

    /// The variant a number read from the wire stands for.
    pub open spec fn spec_from_id(v: i32) -> Option<ChatMode> {
        if v == 0 {
            Some(ChatMode::Enabled)
        } else if v == 1 {
            Some(ChatMode::CommandsOnly)
        } else if v == 2 {
            Some(ChatMode::Hidden)
        } else {
            None
        }
    }

    /// The number that stands for the variant on the wire.
    pub fn id(&self) -> (r: i32)
        ensures
            r == self.spec_id(),
    {
        match self {
            ChatMode::Enabled => 0,
            ChatMode::CommandsOnly => 1,
            ChatMode::Hidden => 2,
        }
    }

    /// The variant a number read from the wire stands for.
    pub fn from_id(v: i32) -> (r: Option<ChatMode>)
        ensures
            r == Self::spec_from_id(v),
    {
        if v == 0 {
            Some(ChatMode::Enabled)
        } else if v == 1 {
            Some(ChatMode::CommandsOnly)
        } else if v == 2 {
            Some(ChatMode::Hidden)
        } else {
            None
        }
    }
}

/// The variant's number as a VarInt; a number that names no variant is refused.
impl PacketCodec for ChatMode {
    type Model = ChatMode;

    open spec fn model(&self) -> ChatMode {
        *self
    }

    open spec fn spec_encode(m: ChatMode) -> Seq<u8> {
        <i32 as PacketCodec>::spec_encode(m.spec_id())
    }

    open spec fn spec_decode(s: Seq<u8>) -> Result<(ChatMode, Seq<u8>), CodecError> {
        match <i32 as PacketCodec>::spec_decode(s) {
            Err(e) => Err(e),
            Ok((v, rest)) => match ChatMode::spec_from_id(v) {
                Some(x) => Ok((x, rest)),
                None => Err(
                    CodecError::InvalidEnumValue {
                        enum_name: "Chat Mode",
                        value: v,
                        expected: "0, 1 or 2",
                    },
                ),
            },
        }
    }

    open spec fn spec_decode_left(s: Seq<u8>) -> Seq<u8> {
        match <i32 as PacketCodec>::spec_decode(s) {
            Err(_) => <i32 as PacketCodec>::spec_decode_left(s),
            Ok((_, rest)) => rest,
        }
    }

    open spec fn spec_valid(m: ChatMode) -> bool {
        true
    }

    fn encode(&self, buf: &mut Vec<u8>) -> (r: Result<(), CodecError>) {
        self.id().encode(buf)
    }

    fn decode(buf: &mut &[u8]) -> (r: Result<ChatMode, CodecError>) {
        let value = match <i32 as PacketCodec>::decode(buf) {
            Ok(v) => v,
            Err(e) => return Err(e),
        };
        match ChatMode::from_id(value) {
            Some(x) => Ok(x),
            None => Err(
                CodecError::InvalidEnumValue {
                    enum_name: "Chat Mode",
                    value,
                    expected: "0, 1 or 2",
                },
            ),
        }
    }

    proof fn lemma_roundtrip(m: ChatMode, rest: Seq<u8>) {
        <i32 as PacketCodec>::lemma_roundtrip(m.spec_id(), rest);
    }
}

/// The hand the player uses most.
#[derive(Debug, Clone, Copy, PartialEq, Eq)]
pub enum MainHand {
    Left,
    Right,
}

impl MainHand {
    /// The number that stands for the variant on the wire.
    pub open spec fn spec_id(self) -> i32 {
        match self {
            MainHand::Left => 0,
            MainHand::Right => 1,
        }
    }

    /// The variant a number read from the wire stands for.
    pub open spec fn spec_from_id(v: i32) -> Option<MainHand> {
        if v == 0 {
            Some(MainHand::Left)
        } else if v == 1 {
            Some(MainHand::Right)
        } else {
            None
        }
    }

    /// The number that stands for the variant on the wire.
    pub fn id(&self) -> (r: i32)
        ensures
            r == self.spec_id(),
    {
        match self {
            MainHand::Left => 0,
            MainHand::Right => 1,
        }
    }

    /// The variant a number read from the wire stands for.
    pub fn from_id(v: i32) -> (r: Option<MainHand>)
        ensures
            r == Self::spec_from_id(v),
    {
        if v == 0 {
            Some(MainHand::Left)
        } else if v == 1 {
            Some(MainHand::Right)
        } else {
            None
        }
    }
}

/// The variant's number as a VarInt; a number that names no variant is refused.
impl PacketCodec for MainHand {
    type Model = MainHand;

    open spec fn model(&self) -> MainHand {
        *self
    }

    open spec fn spec_encode(m: MainHand) -> Seq<u8> {
        <i32 as PacketCodec>::spec_encode(m.spec_id())
    }

    open spec fn spec_decode(s: Seq<u8>) -> Result<(MainHand, Seq<u8>), CodecError> {
        match <i32 as PacketCodec>::spec_decode(s) {
            Err(e) => Err(e),
            Ok((v, rest)) => match MainHand::spec_from_id(v) {
                Some(x) => Ok((x, rest)),
                None => Err(
                    CodecError::InvalidEnumValue {
                        enum_name: "Main Hand",
                        value: v,
                        expected: "0 or 1",
                    },
                ),
            },
        }
    }

    open spec fn spec_decode_left(s: Seq<u8>) -> Seq<u8> {
        match <i32 as PacketCodec>::spec_decode(s) {
            Err(_) => <i32 as PacketCodec>::spec_decode_left(s),
            Ok((_, rest)) => rest,
        }
    }

    open spec fn spec_valid(m: MainHand) -> bool {
        true
    }

    fn encode(&self, buf: &mut Vec<u8>) -> (r: Result<(), CodecError>) {
        self.id().encode(buf)
    }

    fn decode(buf: &mut &[u8]) -> (r: Result<MainHand, CodecError>) {
        let value = match <i32 as PacketCodec>::decode(buf) {
            Ok(v) => v,
            Err(e) => return Err(e),
        };
        match MainHand::from_id(value) {
            Some(x) => Ok(x),
            None => Err(
                CodecError::InvalidEnumValue { enum_name: "Main Hand", value, expected: "0 or 1" },
            ),
        }
    }

    proof fn lemma_roundtrip(m: MainHand, rest: Seq<u8>) {
        <i32 as PacketCodec>::lemma_roundtrip(m.spec_id(), rest);
    }
}

/// How many particles the client shows.
#[derive(Debug, Clone, Copy, PartialEq, Eq)]
pub enum ParticleStatus {
    All,
    Decreased,
    Minimal,
}

impl ParticleStatus {
    /// The number that stands for the variant on the wire.
    pub open spec fn spec_id(self) -> i32 {
        match self {
            ParticleStatus::All => 0,
            ParticleStatus::Decreased => 1,
            ParticleStatus::Minimal => 2,
        }
    }

    /// The variant a number read from the wire stands for.
    pub open spec fn spec_from_id(v: i32) -> Option<ParticleStatus> {
        if v == 0 {
            Some(ParticleStatus::All)
        } else if v == 1 {
            Some(ParticleStatus::Decreased)
        } else if v == 2 {
            Some(ParticleStatus::Minimal)
        } else {
            None
        }
    }

    /// The number that stands for the variant on the wire.
    pub fn id(&self) -> (r: i32)
        ensures
            r == self.spec_id(),
    {
        match self {
            ParticleStatus::All => 0,
            ParticleStatus::Decreased => 1,
            ParticleStatus::Minimal => 2,
        }
    }

    /// The variant a number read from the wire stands for.
    pub fn from_id(v: i32) -> (r: Option<ParticleStatus>)
        ensures
            r == Self::spec_from_id(v),
    {
        if v == 0 {
            Some(ParticleStatus::All)
        } else if v == 1 {
            Some(ParticleStatus::Decreased)
        } else if v == 2 {
            Some(ParticleStatus::Minimal)
        } else {
            None
        }
    }
}

/// The variant's number as a VarInt; a number that names no variant is refused.
impl PacketCodec for ParticleStatus {
    type Model = ParticleStatus;

    open spec fn model(&self) -> ParticleStatus {
        *self
    }

    open spec fn spec_encode(m: ParticleStatus) -> Seq<u8> {
        <i32 as PacketCodec>::spec_encode(m.spec_id())
    }

    open spec fn spec_decode(s: Seq<u8>) -> Result<(ParticleStatus, Seq<u8>), CodecError> {
        match <i32 as PacketCodec>::spec_decode(s) {
            Err(e) => Err(e),
            Ok((v, rest)) => match ParticleStatus::spec_from_id(v) {
                Some(x) => Ok((x, rest)),
                None => Err(
                    CodecError::InvalidEnumValue {
                        enum_name: "Particle Status",
                        value: v,
                        expected: "0, 1 or 2",
                    },
                ),
            },
        }
    }

    open spec fn spec_decode_left(s: Seq<u8>) -> Seq<u8> {
        match <i32 as PacketCodec>::spec_decode(s) {
            Err(_) => <i32 as PacketCodec>::spec_decode_left(s),
            Ok((_, rest)) => rest,
        }
    }

    open spec fn spec_valid(m: ParticleStatus) -> bool {
        true
    }

    fn encode(&self, buf: &mut Vec<u8>) -> (r: Result<(), CodecError>) {
        self.id().encode(buf)
    }

    fn decode(buf: &mut &[u8]) -> (r: Result<ParticleStatus, CodecError>) {
        let value = match <i32 as PacketCodec>::decode(buf) {
            Ok(v) => v,
            Err(e) => return Err(e),
        };
        match ParticleStatus::from_id(value) {
            Some(x) => Ok(x),
            None => Err(
                CodecError::InvalidEnumValue {
                    enum_name: "Particle Status",
                    value,
                    expected: "0, 1 or 2",
                },
            ),
        }
    }

    proof fn lemma_roundtrip(m: ParticleStatus, rest: Seq<u8>) {
        <i32 as PacketCodec>::lemma_roundtrip(m.spec_id(), rest);
    }
}

/// A message on a plugin channel; its data is raw bytes.
pub struct PluginMessage {
    pub channel: Identifier,
    pub data: Vec<u8>,
}

impl ClientboundPacketTrait for PluginMessage {
    type Model = (Seq<char>, Seq<u8>);

    open spec fn model(&self) -> (Seq<char>, Seq<u8>) {
        (self.channel.model(), self.data.model())
    }

    open spec fn spec_id() -> i32 {
        0x01
    }

    open spec fn spec_decode(s: Seq<u8>) -> Result<((Seq<char>, Seq<u8>), Seq<u8>), CodecError> {
        dec2::<Identifier, Vec<u8>>(s)
    }

    open spec fn spec_decode_left(s: Seq<u8>) -> Seq<u8> {
        dec2_left::<Identifier, Vec<u8>>(s)
    }

    fn packet_id(&self) -> (r: i32) {
        0x01
    }

    fn decode(buf: &mut &[u8]) -> (r: Result<PluginMessage, CodecError>) {
        let channel = match String::decode(buf) {
            Ok(v) => v,
            Err(e) => return Err(e),
        };
        let data = match Vec::<u8>::decode(buf) {
            Ok(v) => v,
            Err(e) => return Err(e),
        };
        Ok(PluginMessage { channel, data })
    }
}

/// The server ends the connection, with its reason.
pub struct Disconnect {
    pub reason: String,
}

impl ClientboundPacketTrait for Disconnect {
    type Model = Seq<char>;

    open spec fn model(&self) -> Seq<char> {
        self.reason.model()
    }

    open spec fn spec_id() -> i32 {
        0x02
    }

    open spec fn spec_decode(s: Seq<u8>) -> Result<(Seq<char>, Seq<u8>), CodecError> {
        <String as PacketCodec>::spec_decode(s)
    }

    open spec fn spec_decode_left(s: Seq<u8>) -> Seq<u8> {
        <String as PacketCodec>::spec_decode_left(s)
    }

    fn packet_id(&self) -> (r: i32) {
        0x02
    }

    fn decode(buf: &mut &[u8]) -> (r: Result<Disconnect, CodecError>) {
        let reason = match String::decode(buf) {
            Ok(v) => v,
            Err(e) => return Err(e),
        };
        Ok(Disconnect { reason })
    }
}

/// The server is done configuring; it has no fields.
pub struct FinishConfiguration;

impl ClientboundPacketTrait for FinishConfiguration {
    type Model = ();

    open spec fn model(&self) -> () {
        ()
    }

    open spec fn spec_id() -> i32 {
        0x03
    }

    open spec fn spec_decode(s: Seq<u8>) -> Result<((), Seq<u8>), CodecError> {
        Ok(((), s))
    }

    open spec fn spec_decode_left(s: Seq<u8>) -> Seq<u8> {
        s
    }

    fn packet_id(&self) -> (r: i32) {
        0x03
    }

    fn decode(buf: &mut &[u8]) -> (r: Result<FinishConfiguration, CodecError>) {
        Ok(FinishConfiguration)
    }
}

/// A keep-alive whose id the client must send back; a big-endian long.
pub struct KeepAlive {
    pub keep_alive_id: Long,
}

impl ClientboundPacketTrait for KeepAlive {
    type Model = i64;

    open spec fn model(&self) -> i64 {
        self.keep_alive_id.model()
    }

    open spec fn spec_id() -> i32 {
        0x04
    }

    open spec fn spec_decode(s: Seq<u8>) -> Result<(i64, Seq<u8>), CodecError> {
        <Long as PacketCodec>::spec_decode(s)
    }

    open spec fn spec_decode_left(s: Seq<u8>) -> Seq<u8> {
        <Long as PacketCodec>::spec_decode_left(s)
    }

    fn packet_id(&self) -> (r: i32) {
        0x04
    }

    fn decode(buf: &mut &[u8]) -> (r: Result<KeepAlive, CodecError>) {
        let keep_alive_id = match Long::decode(buf) {
            Ok(v) => v,
            Err(e) => return Err(e),
        };
        Ok(KeepAlive { keep_alive_id })
    }
}

/// A ping whose id the client answers with a pong; a big-endian int.
pub struct Ping {
    pub id: Int,
}

impl ClientboundPacketTrait for Ping {
    type Model = i32;

    open spec fn model(&self) -> i32 {
        self.id.model()
    }

    open spec fn spec_id() -> i32 {
        0x05
    }

    open spec fn spec_decode(s: Seq<u8>) -> Result<(i32, Seq<u8>), CodecError> {
        <Int as PacketCodec>::spec_decode(s)
    }

    open spec fn spec_decode_left(s: Seq<u8>) -> Seq<u8> {
        <Int as PacketCodec>::spec_decode_left(s)
    }

    fn packet_id(&self) -> (r: i32) {
        0x05
    }

    fn decode(buf: &mut &[u8]) -> (r: Result<Ping, CodecError>) {
        let id = match Int::decode(buf) {
            Ok(v) => v,
            Err(e) => return Err(e),
        };
        Ok(Ping { id })
    }
}

/// The client clears its chat state; it has no fields.
pub struct ResetChat;

impl ClientboundPacketTrait for ResetChat {
    type Model = ();

    open spec fn model(&self) -> () {
        ()
    }

    open spec fn spec_id() -> i32 {
        0x06
    }

    open spec fn spec_decode(s: Seq<u8>) -> Result<((), Seq<u8>), CodecError> {
        Ok(((), s))
    }

    open spec fn spec_decode_left(s: Seq<u8>) -> Seq<u8> {
        s
    }

    fn packet_id(&self) -> (r: i32) {
        0x06
    }

    fn decode(buf: &mut &[u8]) -> (r: Result<ResetChat, CodecError>) {
        Ok(ResetChat)
    }
}

/// The contents of one synchronized registry.
pub struct RegistryData {
    pub registry_id: Identifier,
    pub entries: Entries,
}

impl ClientboundPacketTrait for RegistryData {
    type Model = (Seq<char>, <Entries as PacketCodec>::Model);

    open spec fn model(&self) -> (Seq<char>, <Entries as PacketCodec>::Model) {
        (self.registry_id.model(), self.entries.model())
    }

    open spec fn spec_id() -> i32 {
        0x07
    }

    open spec fn spec_decode(s: Seq<u8>) -> Result<(Self::Model, Seq<u8>), CodecError> {
        dec2::<Identifier, Entries>(s)
    }

    open spec fn spec_decode_left(s: Seq<u8>) -> Seq<u8> {
        dec2_left::<Identifier, Entries>(s)
    }

    fn packet_id(&self) -> (r: i32) {
        0x07
    }

    fn decode(buf: &mut &[u8]) -> (r: Result<RegistryData, CodecError>) {
        let registry_id = match String::decode(buf) {
            Ok(v) => v,
            Err(e) => return Err(e),
        };
        let entries = match Entries::decode(buf) {
            Ok(v) => v,
            Err(e) => return Err(e),
        };
        Ok(RegistryData { registry_id, entries })
    }
}

/// One entry of a registry, with its data as optional NBT bytes.
pub struct Entry {
    pub entry_id: Identifier,
    pub data: Option<Vec<u8>>,
}

/// The entry's id, then its boolean-prefixed data.
impl PacketCodec for Entry {
    type Model = (Seq<char>, Option<Seq<u8>>);

    open spec fn model(&self) -> (Seq<char>, Option<Seq<u8>>) {
        (self.entry_id.model(), self.data.model())
    }

    open spec fn spec_encode(m: (Seq<char>, Option<Seq<u8>>)) -> Seq<u8> {
        <Identifier as PacketCodec>::spec_encode(m.0)
            + <Option<Vec<u8>> as PacketCodec>::spec_encode(m.1)
    }

    open spec fn spec_decode(s: Seq<u8>) -> Result<(Self::Model, Seq<u8>), CodecError> {
        dec2::<Identifier, Option<Vec<u8>>>(s)
    }

    open spec fn spec_decode_left(s: Seq<u8>) -> Seq<u8> {
        dec2_left::<Identifier, Option<Vec<u8>>>(s)
    }

    open spec fn spec_valid(m: (Seq<char>, Option<Seq<u8>>)) -> bool {
        <Identifier as PacketCodec>::spec_valid(m.0)
            && <Option<Vec<u8>> as PacketCodec>::spec_valid(m.1)
    }

    fn encode(&self, buf: &mut Vec<u8>) -> (r: Result<(), CodecError>) {
        let _ = self.entry_id.encode(buf);
        let _ = self.data.encode(buf);
        assert(buf@ =~= old(buf)@ + Self::spec_encode(self.model()));
        Ok(())
    }

    fn decode(buf: &mut &[u8]) -> (r: Result<Entry, CodecError>) {
        let entry_id = match String::decode(buf) {
            Ok(v) => v,
            Err(e) => return Err(e),
        };
        let data = match Option::<Vec<u8>>::decode(buf) {
            Ok(v) => v,
            Err(e) => return Err(e),
        };
        Ok(Entry { entry_id, data })
    }

    proof fn lemma_roundtrip(m: (Seq<char>, Option<Seq<u8>>), rest: Seq<u8>) {
        lemma_dec2_roundtrip::<Identifier, Option<Vec<u8>>>(m.0, m.1, rest);
    }
}

/// The entries of a registry.
pub struct Entries(pub Vec<Entry>);

/// A VarInt count, then the entries.
impl PacketCodec for Entries {
    type Model = <Vec<Entry> as PacketCodec>::Model;

    open spec fn model(&self) -> <Vec<Entry> as PacketCodec>::Model {
        self.0.model()
    }

    open spec fn spec_encode(m: <Vec<Entry> as PacketCodec>::Model) -> Seq<u8> {
        <Vec<Entry> as PacketCodec>::spec_encode(m)
    }

    open spec fn spec_decode(s: Seq<u8>) -> Result<(Self::Model, Seq<u8>), CodecError> {
        <Vec<Entry> as PacketCodec>::spec_decode(s)
    }

    open spec fn spec_decode_left(s: Seq<u8>) -> Seq<u8> {
        <Vec<Entry> as PacketCodec>::spec_decode_left(s)
    }

    open spec fn spec_valid(m: <Vec<Entry> as PacketCodec>::Model) -> bool {
        <Vec<Entry> as PacketCodec>::spec_valid(m)
    }

    fn encode(&self, buf: &mut Vec<u8>) -> (r: Result<(), CodecError>) {
        self.0.encode(buf)
    }

    fn decode(buf: &mut &[u8]) -> (r: Result<Entries, CodecError>) {
        match Vec::<Entry>::decode(buf) {
            Ok(v) => Ok(Entries(v)),
            Err(e) => Err(e),
        }
    }

    proof fn lemma_roundtrip(m: <Vec<Entry> as PacketCodec>::Model, rest: Seq<u8>) {
        <Vec<Entry> as PacketCodec>::lemma_roundtrip(m, rest);
    }
}

/// Removes one resource pack, or all of them when there is no UUID.
pub struct RemoveResourcePack {
    pub uuid: Option<Uuid>,
}

impl ClientboundPacketTrait for RemoveResourcePack {
    type Model = Option<Seq<u8>>;

    open spec fn model(&self) -> Option<Seq<u8>> {
        self.uuid.model()
    }

    open spec fn spec_id() -> i32 {
        0x08
    }

    open spec fn spec_decode(s: Seq<u8>) -> Result<(Option<Seq<u8>>, Seq<u8>), CodecError> {
        <Option<Uuid> as PacketCodec>::spec_decode(s)
    }

    open spec fn spec_decode_left(s: Seq<u8>) -> Seq<u8> {
        <Option<Uuid> as PacketCodec>::spec_decode_left(s)
    }

    fn packet_id(&self) -> (r: i32) {
        0x08
    }

    fn decode(buf: &mut &[u8]) -> (r: Result<RemoveResourcePack, CodecError>) {
        let uuid = match Option::<Uuid>::decode(buf) {
            Ok(v) => v,
            Err(e) => return Err(e),
        };
        Ok(RemoveResourcePack { uuid })
    }
}

/// Adds a resource pack.
pub struct AddResourcePack {
    pub uuid: Uuid,
    pub url: String,
    pub hash: String,
    pub forced: bool,
    pub prompt_message: Option<String>,
}

impl ClientboundPacketTrait for AddResourcePack {
    type Model = (Seq<u8>, Seq<char>, Seq<char>, bool, Option<Seq<char>>);

    open spec fn model(&self) -> (Seq<u8>, Seq<char>, Seq<char>, bool, Option<Seq<char>>) {
        (
            self.uuid.model(),
            self.url.model(),
            self.hash.model(),
            self.forced.model(),
            self.prompt_message.model(),
        )
    }

    open spec fn spec_id() -> i32 {
        0x09
    }

    open spec fn spec_decode(s: Seq<u8>) -> Result<(Self::Model, Seq<u8>), CodecError> {
        dec5::<Uuid, String, String, bool, Option<String>>(s)
    }

    open spec fn spec_decode_left(s: Seq<u8>) -> Seq<u8> {
        dec5_left::<Uuid, String, String, bool, Option<String>>(s)
    }

    fn packet_id(&self) -> (r: i32) {
        0x09
    }

    fn decode(buf: &mut &[u8]) -> (r: Result<AddResourcePack, CodecError>) {
        let uuid = match Uuid::decode(buf) {
            Ok(v) => v,
            Err(e) => return Err(e),
        };
        let url = match String::decode(buf) {
            Ok(v) => v,
            Err(e) => return Err(e),
        };
        let hash = match String::decode(buf) {
            Ok(v) => v,
            Err(e) => return Err(e),
        };
        let forced = match bool::decode(buf) {
            Ok(v) => v,
            Err(e) => return Err(e),
        };
        let prompt_message = match Option::<String>::decode(buf) {
            Ok(v) => v,
            Err(e) => return Err(e),
        };
        Ok(AddResourcePack { uuid, url, hash, forced, prompt_message })
    }
}

/// The server stores a cookie on the client.
pub struct StoreCookie {
    pub key: Identifier,
    pub payload: Option<Vec<u8>>,
}

impl ClientboundPacketTrait for StoreCookie {
    type Model = (Seq<char>, Option<Seq<u8>>);

    open spec fn model(&self) -> (Seq<char>, Option<Seq<u8>>) {
        (self.key.model(), self.payload.model())
    }

    open spec fn spec_id() -> i32 {
        0x0A
    }

    open spec fn spec_decode(s: Seq<u8>) -> Result<(Self::Model, Seq<u8>), CodecError> {
        dec2::<Identifier, Option<Vec<u8>>>(s)
    }

    open spec fn spec_decode_left(s: Seq<u8>) -> Seq<u8> {
        dec2_left::<Identifier, Option<Vec<u8>>>(s)
    }

    fn packet_id(&self) -> (r: i32) {
        0x0A
    }

    fn decode(buf: &mut &[u8]) -> (r: Result<StoreCookie, CodecError>) {
        let key = match String::decode(buf) {
            Ok(v) => v,
            Err(e) => return Err(e),
        };
        let payload = match Option::<Vec<u8>>::decode(buf) {
            Ok(v) => v,
            Err(e) => return Err(e),
        };
        Ok(StoreCookie { key, payload })
    }
}

/// The client is to connect to another server.
pub struct Transfer {
    pub host: String,
    pub port: u16,
}

impl ClientboundPacketTrait for Transfer {
    type Model = (Seq<char>, u16);

    open spec fn model(&self) -> (Seq<char>, u16) {
        (self.host.model(), self.port.model())
    }

    open spec fn spec_id() -> i32 {
        0x0B
    }

    open spec fn spec_decode(s: Seq<u8>) -> Result<((Seq<char>, u16), Seq<u8>), CodecError> {
        dec2::<String, u16>(s)
    }

    open spec fn spec_decode_left(s: Seq<u8>) -> Seq<u8> {
        dec2_left::<String, u16>(s)
    }

    fn packet_id(&self) -> (r: i32) {
        0x0B
    }

    fn decode(buf: &mut &[u8]) -> (r: Result<Transfer, CodecError>) {
        let host = match String::decode(buf) {
            Ok(v) => v,
            Err(e) => return Err(e),
        };
        let port = match u16::decode(buf) {
            Ok(v) => v,
            Err(e) => return Err(e),
        };
        Ok(Transfer { host, port })
    }
}

/// The feature flags the server has on.
pub struct FeatureFlags {
    pub feature_flags: FeatureFlagList,
}

impl ClientboundPacketTrait for FeatureFlags {
    type Model = <FeatureFlagList as PacketCodec>::Model;

    open spec fn model(&self) -> <FeatureFlagList as PacketCodec>::Model {
        self.feature_flags.model()
    }

    open spec fn spec_id() -> i32 {
        0x0C
    }

    open spec fn spec_decode(s: Seq<u8>) -> Result<(Self::Model, Seq<u8>), CodecError> {
        <FeatureFlagList as PacketCodec>::spec_decode(s)
    }

    open spec fn spec_decode_left(s: Seq<u8>) -> Seq<u8> {
        <FeatureFlagList as PacketCodec>::spec_decode_left(s)
    }

    fn packet_id(&self) -> (r: i32) {
        0x0C
    }

    fn decode(buf: &mut &[u8]) -> (r: Result<FeatureFlags, CodecError>) {
        let feature_flags = match FeatureFlagList::decode(buf) {
            Ok(v) => v,
            Err(e) => return Err(e),
        };
        Ok(FeatureFlags { feature_flags })
    }
}

/// The identifiers of feature flags.
pub struct FeatureFlagList(pub Vec<Identifier>);

/// A VarInt count, then the identifiers.
impl PacketCodec for FeatureFlagList {
    type Model = <Vec<Identifier> as PacketCodec>::Model;

    open spec fn model(&self) -> <Vec<Identifier> as PacketCodec>::Model {
        self.0.model()
    }

    open spec fn spec_encode(m: <Vec<Identifier> as PacketCodec>::Model) -> Seq<u8> {
        <Vec<Identifier> as PacketCodec>::spec_encode(m)
    }

    open spec fn spec_decode(s: Seq<u8>) -> Result<(Self::Model, Seq<u8>), CodecError> {
        <Vec<Identifier> as PacketCodec>::spec_decode(s)
    }

    open spec fn spec_decode_left(s: Seq<u8>) -> Seq<u8> {
        <Vec<Identifier> as PacketCodec>::spec_decode_left(s)
    }

    open spec fn spec_valid(m: <Vec<Identifier> as PacketCodec>::Model) -> bool {
        <Vec<Identifier> as PacketCodec>::spec_valid(m)
    }

    fn encode(&self, buf: &mut Vec<u8>) -> (r: Result<(), CodecError>) {
        self.0.encode(buf)
    }

    fn decode(buf: &mut &[u8]) -> (r: Result<FeatureFlagList, CodecError>) {
        match Vec::<Identifier>::decode(buf) {
            Ok(v) => Ok(FeatureFlagList(v)),
            Err(e) => Err(e),
        }
    }

    proof fn lemma_roundtrip(m: <Vec<Identifier> as PacketCodec>::Model, rest: Seq<u8>) {
        <Vec<Identifier> as PacketCodec>::lemma_roundtrip(m, rest);
    }
}

/// The tags of each tagged registry.
pub struct UpdateTags {
    pub tagged_registries: TaggedRegistries,
}

impl ClientboundPacketTrait for UpdateTags {
    type Model = <TaggedRegistries as PacketCodec>::Model;

    open spec fn model(&self) -> <TaggedRegistries as PacketCodec>::Model {
        self.tagged_registries.model()
    }

    open spec fn spec_id() -> i32 {
        0x0D
    }

    open spec fn spec_decode(s: Seq<u8>) -> Result<(Self::Model, Seq<u8>), CodecError> {
        <TaggedRegistries as PacketCodec>::spec_decode(s)
    }

    open spec fn spec_decode_left(s: Seq<u8>) -> Seq<u8> {
        <TaggedRegistries as PacketCodec>::spec_decode_left(s)
    }

    fn packet_id(&self) -> (r: i32) {
        0x0D
    }

    fn decode(buf: &mut &[u8]) -> (r: Result<UpdateTags, CodecError>) {
        let tagged_registries = match TaggedRegistries::decode(buf) {
            Ok(v) => v,
            Err(e) => return Err(e),
        };
        Ok(UpdateTags { tagged_registries })
    }
}

/// The registries that carry tags.
pub struct TaggedRegistries(pub Vec<TagRegistry>);

/// A VarInt count, then each registry's id and tags.
impl PacketCodec for TaggedRegistries {
    type Model = <Vec<TagRegistry> as PacketCodec>::Model;

    open spec fn model(&self) -> <Vec<TagRegistry> as PacketCodec>::Model {
        self.0.model()
    }

    open spec fn spec_encode(m: <Vec<TagRegistry> as PacketCodec>::Model) -> Seq<u8> {
        <Vec<TagRegistry> as PacketCodec>::spec_encode(m)
    }

    open spec fn spec_decode(s: Seq<u8>) -> Result<(Self::Model, Seq<u8>), CodecError> {
        <Vec<TagRegistry> as PacketCodec>::spec_decode(s)
    }

    open spec fn spec_decode_left(s: Seq<u8>) -> Seq<u8> {
        <Vec<TagRegistry> as PacketCodec>::spec_decode_left(s)
    }

    open spec fn spec_valid(m: <Vec<TagRegistry> as PacketCodec>::Model) -> bool {
        <Vec<TagRegistry> as PacketCodec>::spec_valid(m)
    }

    fn encode(&self, buf: &mut Vec<u8>) -> (r: Result<(), CodecError>) {
        self.0.encode(buf)
    }

    fn decode(buf: &mut &[u8]) -> (r: Result<TaggedRegistries, CodecError>) {
        match Vec::<TagRegistry>::decode(buf) {
            Ok(v) => Ok(TaggedRegistries(v)),
            Err(e) => Err(e),
        }
    }

    proof fn lemma_roundtrip(m: <Vec<TagRegistry> as PacketCodec>::Model, rest: Seq<u8>) {
        <Vec<TagRegistry> as PacketCodec>::lemma_roundtrip(m, rest);
    }
}

/// The tags of one registry.
pub struct Tags(pub Vec<Tag>);

/// A VarInt count, then the tags.
impl PacketCodec for Tags {
    type Model = <Vec<Tag> as PacketCodec>::Model;

    open spec fn model(&self) -> <Vec<Tag> as PacketCodec>::Model {
        self.0.model()
    }

    open spec fn spec_encode(m: <Vec<Tag> as PacketCodec>::Model) -> Seq<u8> {
        <Vec<Tag> as PacketCodec>::spec_encode(m)
    }

    open spec fn spec_decode(s: Seq<u8>) -> Result<(Self::Model, Seq<u8>), CodecError> {
        <Vec<Tag> as PacketCodec>::spec_decode(s)
    }

    open spec fn spec_decode_left(s: Seq<u8>) -> Seq<u8> {
        <Vec<Tag> as PacketCodec>::spec_decode_left(s)
    }

    open spec fn spec_valid(m: <Vec<Tag> as PacketCodec>::Model) -> bool {
        <Vec<Tag> as PacketCodec>::spec_valid(m)
    }

    fn encode(&self, buf: &mut Vec<u8>) -> (r: Result<(), CodecError>) {
        self.0.encode(buf)
    }

    fn decode(buf: &mut &[u8]) -> (r: Result<Tags, CodecError>) {
        match Vec::<Tag>::decode(buf) {
            Ok(v) => Ok(Tags(v)),
            Err(e) => Err(e),
        }
    }

    proof fn lemma_roundtrip(m: <Vec<Tag> as PacketCodec>::Model, rest: Seq<u8>) {
        <Vec<Tag> as PacketCodec>::lemma_roundtrip(m, rest);
    }
}

/// A registry and its tags.
pub struct TagRegistry {
    pub registry: Identifier,
    pub tags: Tags,
}

/// The registry's id, then its tags.
impl PacketCodec for TagRegistry {
    type Model = (Seq<char>, <Tags as PacketCodec>::Model);

    open spec fn model(&self) -> (Seq<char>, <Tags as PacketCodec>::Model) {
        (self.registry.model(), self.tags.model())
    }

    open spec fn spec_encode(m: (Seq<char>, <Tags as PacketCodec>::Model)) -> Seq<u8> {
        <Identifier as PacketCodec>::spec_encode(m.0) + <Tags as PacketCodec>::spec_encode(m.1)
    }

    open spec fn spec_decode(s: Seq<u8>) -> Result<(Self::Model, Seq<u8>), CodecError> {
        dec2::<Identifier, Tags>(s)
    }

    open spec fn spec_decode_left(s: Seq<u8>) -> Seq<u8> {
        dec2_left::<Identifier, Tags>(s)
    }

    open spec fn spec_valid(m: (Seq<char>, <Tags as PacketCodec>::Model)) -> bool {
        <Identifier as PacketCodec>::spec_valid(m.0) && <Tags as PacketCodec>::spec_valid(m.1)
    }

    fn encode(&self, buf: &mut Vec<u8>) -> (r: Result<(), CodecError>) {
        let _ = self.registry.encode(buf);
        let _ = self.tags.encode(buf);
        assert(buf@ =~= old(buf)@ + Self::spec_encode(self.model()));
        Ok(())
    }

    fn decode(buf: &mut &[u8]) -> (r: Result<TagRegistry, CodecError>) {
        let registry = match String::decode(buf) {
            Ok(v) => v,
            Err(e) => return Err(e),
        };
        let tags = match Tags::decode(buf) {
            Ok(v) => v,
            Err(e) => return Err(e),
        };
        Ok(TagRegistry { registry, tags })
    }

    proof fn lemma_roundtrip(m: (Seq<char>, <Tags as PacketCodec>::Model), rest: Seq<u8>) {
        lemma_dec2_roundtrip::<Identifier, Tags>(m.0, m.1, rest);
    }
}

/// A tag: its name and the numeric ids of its entries.
pub struct Tag {
    pub tag_name: Identifier,
    pub entries: Vec<i32>,
}

/// The name, then the ids as a prefixed array of VarInts.
impl PacketCodec for Tag {
    type Model = (Seq<char>, Seq<i32>);

    open spec fn model(&self) -> (Seq<char>, Seq<i32>) {
        (self.tag_name.model(), self.entries.model())
    }

    open spec fn spec_encode(m: (Seq<char>, Seq<i32>)) -> Seq<u8> {
        <Identifier as PacketCodec>::spec_encode(m.0) + <Vec<i32> as PacketCodec>::spec_encode(m.1)
    }

    open spec fn spec_decode(s: Seq<u8>) -> Result<((Seq<char>, Seq<i32>), Seq<u8>), CodecError> {
        dec2::<Identifier, Vec<i32>>(s)
    }

    open spec fn spec_decode_left(s: Seq<u8>) -> Seq<u8> {
        dec2_left::<Identifier, Vec<i32>>(s)
    }

    open spec fn spec_valid(m: (Seq<char>, Seq<i32>)) -> bool {
        <Identifier as PacketCodec>::spec_valid(m.0) && <Vec<i32> as PacketCodec>::spec_valid(m.1)
    }

    fn encode(&self, buf: &mut Vec<u8>) -> (r: Result<(), CodecError>) {
        let _ = self.tag_name.encode(buf);
        let _ = self.entries.encode(buf);
        assert(buf@ =~= old(buf)@ + Self::spec_encode(self.model()));
        Ok(())
    }

    fn decode(buf: &mut &[u8]) -> (r: Result<Tag, CodecError>) {
        let tag_name = match String::decode(buf) {
            Ok(v) => v,
            Err(e) => return Err(e),
        };
        let entries = match Vec::<i32>::decode(buf) {
            Ok(v) => v,
            Err(e) => return Err(e),
        };
        Ok(Tag { tag_name, entries })
    }

    proof fn lemma_roundtrip(m: (Seq<char>, Seq<i32>), rest: Seq<u8>) {
        lemma_dec2_roundtrip::<Identifier, Vec<i32>>(m.0, m.1, rest);
    }
}

/// The data packs the server knows.
pub struct ClientboundKnownPacks {
    pub packs: KnownPackList,
}

impl ClientboundPacketTrait for ClientboundKnownPacks {
    type Model = <KnownPackList as PacketCodec>::Model;

    open spec fn model(&self) -> <KnownPackList as PacketCodec>::Model {
        self.packs.model()
    }

    open spec fn spec_id() -> i32 {
        0x0E
    }

    open spec fn spec_decode(s: Seq<u8>) -> Result<(Self::Model, Seq<u8>), CodecError> {
        <KnownPackList as PacketCodec>::spec_decode(s)
    }

    open spec fn spec_decode_left(s: Seq<u8>) -> Seq<u8> {
        <KnownPackList as PacketCodec>::spec_decode_left(s)
    }

    fn packet_id(&self) -> (r: i32) {
        0x0E
    }

    fn decode(buf: &mut &[u8]) -> (r: Result<ClientboundKnownPacks, CodecError>) {
        let packs = match KnownPackList::decode(buf) {
            Ok(v) => v,
            Err(e) => return Err(e),
        };
        Ok(ClientboundKnownPacks { packs })
    }
}

/// A data pack: namespace, id and version.
pub struct KnownPack {
    pub namespace: Identifier,
    pub id: Identifier,
    pub version: String,
}

/// The namespace, the id and the version, each a string.
impl PacketCodec for KnownPack {
    type Model = (Seq<char>, Seq<char>, Seq<char>);

    open spec fn model(&self) -> (Seq<char>, Seq<char>, Seq<char>) {
        (self.namespace.model(), self.id.model(), self.version.model())
    }

    open spec fn spec_encode(m: (Seq<char>, Seq<char>, Seq<char>)) -> Seq<u8> {
        <Identifier as PacketCodec>::spec_encode(m.0)
            + <Identifier as PacketCodec>::spec_encode(m.1)
            + <String as PacketCodec>::spec_encode(m.2)
    }

    open spec fn spec_decode(s: Seq<u8>) -> Result<(Self::Model, Seq<u8>), CodecError> {
        dec3::<Identifier, Identifier, String>(s)
    }

    open spec fn spec_decode_left(s: Seq<u8>) -> Seq<u8> {
        dec3_left::<Identifier, Identifier, String>(s)
    }

    open spec fn spec_valid(m: (Seq<char>, Seq<char>, Seq<char>)) -> bool {
        <Identifier as PacketCodec>::spec_valid(m.0)
            && <Identifier as PacketCodec>::spec_valid(m.1)
            && <String as PacketCodec>::spec_valid(m.2)
    }

    fn encode(&self, buf: &mut Vec<u8>) -> (r: Result<(), CodecError>) {
        let _ = self.namespace.encode(buf);
        let _ = self.id.encode(buf);
        let _ = self.version.encode(buf);
        assert(buf@ =~= old(buf)@ + Self::spec_encode(self.model()));
        Ok(())
    }

    fn decode(buf: &mut &[u8]) -> (r: Result<KnownPack, CodecError>) {
        let namespace = match String::decode(buf) {
            Ok(v) => v,
            Err(e) => return Err(e),
        };
        let id = match String::decode(buf) {
            Ok(v) => v,
            Err(e) => return Err(e),
        };
        let version = match String::decode(buf) {
            Ok(v) => v,
            Err(e) => return Err(e),
        };
        Ok(KnownPack { namespace, id, version })
    }

    proof fn lemma_roundtrip(m: (Seq<char>, Seq<char>, Seq<char>), rest: Seq<u8>) {
        lemma_dec3_roundtrip::<Identifier, Identifier, String>(m.0, m.1, m.2, rest);
    }
}

/// A list of data packs.
pub struct KnownPackList(pub Vec<KnownPack>);

/// A VarInt count, then the packs.
impl PacketCodec for KnownPackList {
    type Model = <Vec<KnownPack> as PacketCodec>::Model;

    open spec fn model(&self) -> <Vec<KnownPack> as PacketCodec>::Model {
        self.0.model()
    }

    open spec fn spec_encode(m: <Vec<KnownPack> as PacketCodec>::Model) -> Seq<u8> {
        <Vec<KnownPack> as PacketCodec>::spec_encode(m)
    }

    open spec fn spec_decode(s: Seq<u8>) -> Result<(Self::Model, Seq<u8>), CodecError> {
        <Vec<KnownPack> as PacketCodec>::spec_decode(s)
    }

    open spec fn spec_decode_left(s: Seq<u8>) -> Seq<u8> {
        <Vec<KnownPack> as PacketCodec>::spec_decode_left(s)
    }

    open spec fn spec_valid(m: <Vec<KnownPack> as PacketCodec>::Model) -> bool {
        <Vec<KnownPack> as PacketCodec>::spec_valid(m)
    }

    fn encode(&self, buf: &mut Vec<u8>) -> (r: Result<(), CodecError>) {
        self.0.encode(buf)
    }

    fn decode(buf: &mut &[u8]) -> (r: Result<KnownPackList, CodecError>) {
        match Vec::<KnownPack>::decode(buf) {
            Ok(v) => Ok(KnownPackList(v)),
            Err(e) => Err(e),
        }
    }

    proof fn lemma_roundtrip(m: <Vec<KnownPack> as PacketCodec>::Model, rest: Seq<u8>) {
        <Vec<KnownPack> as PacketCodec>::lemma_roundtrip(m, rest);
    }
}

/// Details the client adds to crash reports.
pub struct CustomReportDetails {
    pub details: ReportDetails,
}

impl ClientboundPacketTrait for CustomReportDetails {
    type Model = <ReportDetails as PacketCodec>::Model;

    open spec fn model(&self) -> <ReportDetails as PacketCodec>::Model {
        self.details.model()
    }

    open spec fn spec_id() -> i32 {
        0x0F
    }

    open spec fn spec_decode(s: Seq<u8>) -> Result<(Self::Model, Seq<u8>), CodecError> {
        <ReportDetails as PacketCodec>::spec_decode(s)
    }

    open spec fn spec_decode_left(s: Seq<u8>) -> Seq<u8> {
        <ReportDetails as PacketCodec>::spec_decode_left(s)
    }

    fn packet_id(&self) -> (r: i32) {
        0x0F
    }

    fn decode(buf: &mut &[u8]) -> (r: Result<CustomReportDetails, CodecError>) {
        let details = match ReportDetails::decode(buf) {
            Ok(v) => v,
            Err(e) => return Err(e),
        };
        Ok(CustomReportDetails { details })
    }
}

/// One detail of a crash report: a key and its value.
pub struct ReportDetail {
    pub key: String,
    pub value: String,
}

/// The key, then the value.
impl PacketCodec for ReportDetail {
    type Model = (Seq<char>, Seq<char>);

    open spec fn model(&self) -> (Seq<char>, Seq<char>) {
        (self.key.model(), self.value.model())
    }

    open spec fn spec_encode(m: (Seq<char>, Seq<char>)) -> Seq<u8> {
        <String as PacketCodec>::spec_encode(m.0) + <String as PacketCodec>::spec_encode(m.1)
    }

    open spec fn spec_decode(s: Seq<u8>) -> Result<((Seq<char>, Seq<char>), Seq<u8>), CodecError> {
        dec2::<String, String>(s)
    }

    open spec fn spec_decode_left(s: Seq<u8>) -> Seq<u8> {
        dec2_left::<String, String>(s)
    }

    open spec fn spec_valid(m: (Seq<char>, Seq<char>)) -> bool {
        <String as PacketCodec>::spec_valid(m.0) && <String as PacketCodec>::spec_valid(m.1)
    }

    fn encode(&self, buf: &mut Vec<u8>) -> (r: Result<(), CodecError>) {
        let _ = self.key.encode(buf);
        let _ = self.value.encode(buf);
        assert(buf@ =~= old(buf)@ + Self::spec_encode(self.model()));
        Ok(())
    }

    fn decode(buf: &mut &[u8]) -> (r: Result<ReportDetail, CodecError>) {
        let key = match String::decode(buf) {
            Ok(v) => v,
            Err(e) => return Err(e),
        };
        let value = match String::decode(buf) {
            Ok(v) => v,
            Err(e) => return Err(e),
        };
        Ok(ReportDetail { key, value })
    }

    proof fn lemma_roundtrip(m: (Seq<char>, Seq<char>), rest: Seq<u8>) {
        lemma_dec2_roundtrip::<String, String>(m.0, m.1, rest);
    }
}

/// The details of a crash report.
pub struct ReportDetails(pub Vec<ReportDetail>);

/// A VarInt count, then the details.
impl PacketCodec for ReportDetails {
    type Model = <Vec<ReportDetail> as PacketCodec>::Model;

    open spec fn model(&self) -> <Vec<ReportDetail> as PacketCodec>::Model {
        self.0.model()
    }

    open spec fn spec_encode(m: <Vec<ReportDetail> as PacketCodec>::Model) -> Seq<u8> {
        <Vec<ReportDetail> as PacketCodec>::spec_encode(m)
    }

    open spec fn spec_decode(s: Seq<u8>) -> Result<(Self::Model, Seq<u8>), CodecError> {
        <Vec<ReportDetail> as PacketCodec>::spec_decode(s)
    }

    open spec fn spec_decode_left(s: Seq<u8>) -> Seq<u8> {
        <Vec<ReportDetail> as PacketCodec>::spec_decode_left(s)
    }

    open spec fn spec_valid(m: <Vec<ReportDetail> as PacketCodec>::Model) -> bool {
        <Vec<ReportDetail> as PacketCodec>::spec_valid(m)
    }

    fn encode(&self, buf: &mut Vec<u8>) -> (r: Result<(), CodecError>) {
        self.0.encode(buf)
    }

    fn decode(buf: &mut &[u8]) -> (r: Result<ReportDetails, CodecError>) {
        match Vec::<ReportDetail>::decode(buf) {
            Ok(v) => Ok(ReportDetails(v)),
            Err(e) => Err(e),
        }
    }

    proof fn lemma_roundtrip(m: <Vec<ReportDetail> as PacketCodec>::Model, rest: Seq<u8>) {
        <Vec<ReportDetail> as PacketCodec>::lemma_roundtrip(m, rest);
    }
}

/// Links the server shows in its menu.
pub struct ServerLinks {
    pub links: ServerLinkList,
}

impl ClientboundPacketTrait for ServerLinks {
    type Model = <ServerLinkList as PacketCodec>::Model;

    open spec fn model(&self) -> <ServerLinkList as PacketCodec>::Model {
        self.links.model()
    }

    open spec fn spec_id() -> i32 {
        0x10
    }

    open spec fn spec_decode(s: Seq<u8>) -> Result<(Self::Model, Seq<u8>), CodecError> {
        <ServerLinkList as PacketCodec>::spec_decode(s)
    }

    open spec fn spec_decode_left(s: Seq<u8>) -> Seq<u8> {
        <ServerLinkList as PacketCodec>::spec_decode_left(s)
    }

    fn packet_id(&self) -> (r: i32) {
        0x10
    }

    fn decode(buf: &mut &[u8]) -> (r: Result<ServerLinks, CodecError>) {
        let links = match ServerLinkList::decode(buf) {
            Ok(v) => v,
            Err(e) => return Err(e),
        };
        Ok(ServerLinks { links })
    }
}

/// A link: what kind it is and its URL.
pub struct ServerLink {
    pub link_type: ServerLinkType,
    pub url: String,
}

/// The kind, then the URL.
impl PacketCodec for ServerLink {
    type Model = (<ServerLinkType as PacketCodec>::Model, Seq<char>);

    open spec fn model(&self) -> (<ServerLinkType as PacketCodec>::Model, Seq<char>) {
        (self.link_type.model(), self.url.model())
    }

    open spec fn spec_encode(m: (<ServerLinkType as PacketCodec>::Model, Seq<char>)) -> Seq<u8> {
        <ServerLinkType as PacketCodec>::spec_encode(m.0)
            + <String as PacketCodec>::spec_encode(m.1)
    }

    open spec fn spec_decode(s: Seq<u8>) -> Result<(Self::Model, Seq<u8>), CodecError> {
        dec2::<ServerLinkType, String>(s)
    }

    open spec fn spec_decode_left(s: Seq<u8>) -> Seq<u8> {
        dec2_left::<ServerLinkType, String>(s)
    }

    open spec fn spec_valid(m: (<ServerLinkType as PacketCodec>::Model, Seq<char>)) -> bool {
        <ServerLinkType as PacketCodec>::spec_valid(m.0) && <String as PacketCodec>::spec_valid(m.1)
    }

    fn encode(&self, buf: &mut Vec<u8>) -> (r: Result<(), CodecError>) {
        let _ = self.link_type.encode(buf);
        let _ = self.url.encode(buf);
        assert(buf@ =~= old(buf)@ + Self::spec_encode(self.model()));
        Ok(())
    }

    fn decode(buf: &mut &[u8]) -> (r: Result<ServerLink, CodecError>) {
        let link_type = match ServerLinkType::decode(buf) {
            Ok(v) => v,
            Err(e) => return Err(e),
        };
        let url = match String::decode(buf) {
            Ok(v) => v,
            Err(e) => return Err(e),
        };
        Ok(ServerLink { link_type, url })
    }

    proof fn lemma_roundtrip(m: (<ServerLinkType as PacketCodec>::Model, Seq<char>), rest: Seq<u8>) {
        lemma_dec2_roundtrip::<ServerLinkType, String>(m.0, m.1, rest);
    }
}

/// What a server link points to.
#[derive(Debug, Clone, Copy, PartialEq, Eq)]
pub enum ServerLinkType {
    BugReport,
    CommunityGuidelines,
    Support,
    Status,
    Feedback,
    Community,
    Website,
    Forums,
    News,
    Announcements,
}

impl ServerLinkType {
    /// The number that stands for the variant on the wire.
    pub open spec fn spec_id(self) -> i32 {
        match self {
            ServerLinkType::BugReport => 0,
            ServerLinkType::CommunityGuidelines => 1,
            ServerLinkType::Support => 2,
            ServerLinkType::Status => 3,
            ServerLinkType::Feedback => 4,
            ServerLinkType::Community => 5,
            ServerLinkType::Website => 6,
            ServerLinkType::Forums => 7,
            ServerLinkType::News => 8,
            ServerLinkType::Announcements => 9,
        }
    }

    /// The variant a number read from the wire stands for.
    pub open spec fn spec_from_id(v: i32) -> Option<ServerLinkType> {
        if v == 0 {
            Some(ServerLinkType::BugReport)
        } else if v == 1 {
            Some(ServerLinkType::CommunityGuidelines)
        } else if v == 2 {
            Some(ServerLinkType::Support)
        } else if v == 3 {
            Some(ServerLinkType::Status)
        } else if v == 4 {
            Some(ServerLinkType::Feedback)
        } else if v == 5 {
            Some(ServerLinkType::Community)
        } else if v == 6 {
            Some(ServerLinkType::Website)
        } else if v == 7 {
            Some(ServerLinkType::Forums)
        } else if v == 8 {
            Some(ServerLinkType::News)
        } else if v == 9 {
            Some(ServerLinkType::Announcements)
        } else {
            None
        }
    }

    /// The number that stands for the variant on the wire.
    pub fn id(&self) -> (r: i32)
        ensures
            r == self.spec_id(),
    {
        match self {
            ServerLinkType::BugReport => 0,
            ServerLinkType::CommunityGuidelines => 1,
            ServerLinkType::Support => 2,
            ServerLinkType::Status => 3,
            ServerLinkType::Feedback => 4,
            ServerLinkType::Community => 5,
            ServerLinkType::Website => 6,
            ServerLinkType::Forums => 7,
            ServerLinkType::News => 8,
            ServerLinkType::Announcements => 9,
        }
    }

    /// The variant a number read from the wire stands for.
    pub fn from_id(v: i32) -> (r: Option<ServerLinkType>)
        ensures
            r == Self::spec_from_id(v),
    {
        if v == 0 {
            Some(ServerLinkType::BugReport)
        } else if v == 1 {
            Some(ServerLinkType::CommunityGuidelines)
        } else if v == 2 {
            Some(ServerLinkType::Support)
        } else if v == 3 {
            Some(ServerLinkType::Status)
        } else if v == 4 {
            Some(ServerLinkType::Feedback)
        } else if v == 5 {
            Some(ServerLinkType::Community)
        } else if v == 6 {
            Some(ServerLinkType::Website)
        } else if v == 7 {
            Some(ServerLinkType::Forums)
        } else if v == 8 {
            Some(ServerLinkType::News)
        } else if v == 9 {
            Some(ServerLinkType::Announcements)
        } else {
            None
        }
    }
}

/// The variant's number as a VarInt; a number that names no variant is refused.
impl PacketCodec for ServerLinkType {
    type Model = ServerLinkType;

    open spec fn model(&self) -> ServerLinkType {
        *self
    }

    open spec fn spec_encode(m: ServerLinkType) -> Seq<u8> {
        <i32 as PacketCodec>::spec_encode(m.spec_id())
    }

    open spec fn spec_decode(s: Seq<u8>) -> Result<(ServerLinkType, Seq<u8>), CodecError> {
        match <i32 as PacketCodec>::spec_decode(s) {
            Err(e) => Err(e),
            Ok((v, rest)) => match ServerLinkType::spec_from_id(v) {
                Some(x) => Ok((x, rest)),
                None => Err(
                    CodecError::InvalidEnumValue {
                        enum_name: "ServerLinkType",
                        value: v,
                        expected: "0..9",
                    },
                ),
            },
        }
    }

    open spec fn spec_decode_left(s: Seq<u8>) -> Seq<u8> {
        match <i32 as PacketCodec>::spec_decode(s) {
            Err(_) => <i32 as PacketCodec>::spec_decode_left(s),
            Ok((_, rest)) => rest,
        }
    }

    open spec fn spec_valid(m: ServerLinkType) -> bool {
        true
    }

    fn encode(&self, buf: &mut Vec<u8>) -> (r: Result<(), CodecError>) {
        self.id().encode(buf)
    }

    fn decode(buf: &mut &[u8]) -> (r: Result<ServerLinkType, CodecError>) {
        let value = match <i32 as PacketCodec>::decode(buf) {
            Ok(v) => v,
            Err(e) => return Err(e),
        };
        match ServerLinkType::from_id(value) {
            Some(x) => Ok(x),
            None => Err(
                CodecError::InvalidEnumValue {
                    enum_name: "ServerLinkType",
                    value,
                    expected: "0..9",
                },
            ),
        }
    }

    proof fn lemma_roundtrip(m: ServerLinkType, rest: Seq<u8>) {
        <i32 as PacketCodec>::lemma_roundtrip(m.spec_id(), rest);
    }
}

/// The links of a server.
pub struct ServerLinkList(pub Vec<ServerLink>);

/// A VarInt count, then the links.
impl PacketCodec for ServerLinkList {
    type Model = <Vec<ServerLink> as PacketCodec>::Model;

    open spec fn model(&self) -> <Vec<ServerLink> as PacketCodec>::Model {
        self.0.model()
    }

    open spec fn spec_encode(m: <Vec<ServerLink> as PacketCodec>::Model) -> Seq<u8> {
        <Vec<ServerLink> as PacketCodec>::spec_encode(m)
    }

    open spec fn spec_decode(s: Seq<u8>) -> Result<(Self::Model, Seq<u8>), CodecError> {
        <Vec<ServerLink> as PacketCodec>::spec_decode(s)
    }

    open spec fn spec_decode_left(s: Seq<u8>) -> Seq<u8> {
        <Vec<ServerLink> as PacketCodec>::spec_decode_left(s)
    }

    open spec fn spec_valid(m: <Vec<ServerLink> as PacketCodec>::Model) -> bool {
        <Vec<ServerLink> as PacketCodec>::spec_valid(m)
    }

    fn encode(&self, buf: &mut Vec<u8>) -> (r: Result<(), CodecError>) {
        self.0.encode(buf)
    }

    fn decode(buf: &mut &[u8]) -> (r: Result<ServerLinkList, CodecError>) {
        match Vec::<ServerLink>::decode(buf) {
            Ok(v) => Ok(ServerLinkList(v)),
            Err(e) => Err(e),
        }
    }

    proof fn lemma_roundtrip(m: <Vec<ServerLink> as PacketCodec>::Model, rest: Seq<u8>) {
        <Vec<ServerLink> as PacketCodec>::lemma_roundtrip(m, rest);
    }
}

/// Closes the dialog the client shows; it has no fields.
pub struct ClearDialog;

impl ClientboundPacketTrait for ClearDialog {
    type Model = ();

    open spec fn model(&self) -> () {
        ()
    }

    open spec fn spec_id() -> i32 {
        0x11
    }

    open spec fn spec_decode(s: Seq<u8>) -> Result<((), Seq<u8>), CodecError> {
        Ok(((), s))
    }

    open spec fn spec_decode_left(s: Seq<u8>) -> Seq<u8> {
        s
    }

    fn packet_id(&self) -> (r: i32) {
        0x11
    }

    fn decode(buf: &mut &[u8]) -> (r: Result<ClearDialog, CodecError>) {
        Ok(ClearDialog)
    }
}

/// Shows a dialog, given as NBT bytes.
pub struct ShowDialog {
    pub dialog: Vec<u8>,
}

impl ClientboundPacketTrait for ShowDialog {
    type Model = Seq<u8>;

    open spec fn model(&self) -> Seq<u8> {
        self.dialog.model()
    }

    open spec fn spec_id() -> i32 {
        0x12
    }

    open spec fn spec_decode(s: Seq<u8>) -> Result<(Seq<u8>, Seq<u8>), CodecError> {
        <Vec<u8> as PacketCodec>::spec_decode(s)
    }

    open spec fn spec_decode_left(s: Seq<u8>) -> Seq<u8> {
        <Vec<u8> as PacketCodec>::spec_decode_left(s)
    }

    fn packet_id(&self) -> (r: i32) {
        0x12
    }

    fn decode(buf: &mut &[u8]) -> (r: Result<ShowDialog, CodecError>) {
        let dialog = match Vec::<u8>::decode(buf) {
            Ok(v) => v,
            Err(e) => return Err(e),
        };
        Ok(ShowDialog { dialog })
    }
}

/// The client's settings, sent on connecting and whenever they change.
pub struct ClientInformation {
    pub locale: String,
    pub view_distance: i8,
    pub chat_mode: ChatMode,
    pub chat_colors: bool,
    /// The parts of the skin shown, as the bits of `skin_parts`.
    pub displayed_skin_parts: u8,
    pub main_hand: MainHand,
    pub enable_text_filtering: bool,
    pub allow_server_listings: bool,
    pub particle_status: ParticleStatus,
}

impl ServerboundPacketTrait for ClientInformation {
    open spec fn spec_id() -> i32 {
        0x00
    }

    open spec fn spec_packet_bytes(&self) -> Seq<u8> {
        <String as PacketCodec>::spec_encode(self.locale.model())
            + <i8 as PacketCodec>::spec_encode(self.view_distance.model())
            + <ChatMode as PacketCodec>::spec_encode(self.chat_mode.model())
            + <bool as PacketCodec>::spec_encode(self.chat_colors.model())
            + <u8 as PacketCodec>::spec_encode(self.displayed_skin_parts.model())
            + <MainHand as PacketCodec>::spec_encode(self.main_hand.model())
            + <bool as PacketCodec>::spec_encode(self.enable_text_filtering.model())
            + <bool as PacketCodec>::spec_encode(self.allow_server_listings.model())
            + <ParticleStatus as PacketCodec>::spec_encode(self.particle_status.model())
    }

    fn packet_id(&self) -> (r: i32) {
        0x00
    }

    fn encode(&self, buf: &mut Vec<u8>) -> (r: Result<(), CodecError>) {
        let _ = self.locale.encode(buf);
        let ghost mut acc = <String as PacketCodec>::spec_encode(self.locale.model());
        let _ = self.view_distance.encode(buf);
        proof {
            lemma_concat_associative(
                old(buf)@,
                acc,
                <i8 as PacketCodec>::spec_encode(self.view_distance.model()),
            );
            acc = acc + <i8 as PacketCodec>::spec_encode(self.view_distance.model());
        }
        let _ = self.chat_mode.encode(buf);
        proof {
            lemma_concat_associative(
                old(buf)@,
                acc,
                <ChatMode as PacketCodec>::spec_encode(self.chat_mode.model()),
            );
            acc = acc + <ChatMode as PacketCodec>::spec_encode(self.chat_mode.model());
        }
        let _ = self.chat_colors.encode(buf);
        proof {
            lemma_concat_associative(
                old(buf)@,
                acc,
                <bool as PacketCodec>::spec_encode(self.chat_colors.model()),
            );
            acc = acc + <bool as PacketCodec>::spec_encode(self.chat_colors.model());
        }
        let _ = self.displayed_skin_parts.encode(buf);
        proof {
            lemma_concat_associative(
                old(buf)@,
                acc,
                <u8 as PacketCodec>::spec_encode(self.displayed_skin_parts.model()),
            );
            acc = acc + <u8 as PacketCodec>::spec_encode(self.displayed_skin_parts.model());
        }
        let _ = self.main_hand.encode(buf);
        proof {
            lemma_concat_associative(
                old(buf)@,
                acc,
                <MainHand as PacketCodec>::spec_encode(self.main_hand.model()),
            );
            acc = acc + <MainHand as PacketCodec>::spec_encode(self.main_hand.model());
        }
        let _ = self.enable_text_filtering.encode(buf);
        proof {
            lemma_concat_associative(
                old(buf)@,
                acc,
                <bool as PacketCodec>::spec_encode(self.enable_text_filtering.model()),
            );
            acc = acc + <bool as PacketCodec>::spec_encode(self.enable_text_filtering.model());
        }
        let _ = self.allow_server_listings.encode(buf);
        proof {
            lemma_concat_associative(
                old(buf)@,
                acc,
                <bool as PacketCodec>::spec_encode(self.allow_server_listings.model()),
            );
            acc = acc + <bool as PacketCodec>::spec_encode(self.allow_server_listings.model());
        }
        let _ = self.particle_status.encode(buf);
        proof {
            lemma_concat_associative(
                old(buf)@,
                acc,
                <ParticleStatus as PacketCodec>::spec_encode(self.particle_status.model()),
            );
            acc = acc + <ParticleStatus as PacketCodec>::spec_encode(self.particle_status.model());
        }
        Ok(())
    }
}

/// The client's answer to a cookie request.
pub struct CookieResponse {
    pub key: Identifier,
    pub payload: Option<Vec<u8>>,
}

impl ServerboundPacketTrait for CookieResponse {
    open spec fn spec_id() -> i32 {
        0x01
    }

    open spec fn spec_packet_bytes(&self) -> Seq<u8> {
        <Identifier as PacketCodec>::spec_encode(self.key.model())
            + <Option<Vec<u8>> as PacketCodec>::spec_encode(self.payload.model())
    }

    fn packet_id(&self) -> (r: i32) {
        0x01
    }

    fn encode(&self, buf: &mut Vec<u8>) -> (r: Result<(), CodecError>) {
        let _ = self.key.encode(buf);
        let _ = self.payload.encode(buf);
        assert(buf@ =~= old(buf)@ + self.spec_packet_bytes());
        Ok(())
    }
}

/// A message on a plugin channel from the client.
pub struct ServerboundPluginMessage {
    pub channel: Identifier,
    pub data: Vec<u8>,
}

impl ServerboundPacketTrait for ServerboundPluginMessage {
    open spec fn spec_id() -> i32 {
        0x02
    }

    open spec fn spec_packet_bytes(&self) -> Seq<u8> {
        <Identifier as PacketCodec>::spec_encode(self.channel.model())
            + <Vec<u8> as PacketCodec>::spec_encode(self.data.model())
    }

    fn packet_id(&self) -> (r: i32) {
        0x02
    }

    fn encode(&self, buf: &mut Vec<u8>) -> (r: Result<(), CodecError>) {
        let _ = self.channel.encode(buf);
        let _ = self.data.encode(buf);
        assert(buf@ =~= old(buf)@ + self.spec_packet_bytes());
        Ok(())
    }
}

/// The client agrees to end configuration; it has no fields.
pub struct AcknowledgeFinishConfiguration;

impl ServerboundPacketTrait for AcknowledgeFinishConfiguration {
    open spec fn spec_id() -> i32 {
        0x03
    }

    open spec fn spec_packet_bytes(&self) -> Seq<u8> {
        Seq::empty()
    }

    fn packet_id(&self) -> (r: i32) {
        0x03
    }

    fn encode(&self, buf: &mut Vec<u8>) -> (r: Result<(), CodecError>) {
        assert(buf@ =~= old(buf)@ + self.spec_packet_bytes());
        Ok(())
    }
}

/// The client's answer to a keep-alive.
pub struct ServerboundKeepAlive {
    pub keep_alive_id: Long,
}

impl ServerboundPacketTrait for ServerboundKeepAlive {
    open spec fn spec_id() -> i32 {
        0x04
    }

    open spec fn spec_packet_bytes(&self) -> Seq<u8> {
        <Long as PacketCodec>::spec_encode(self.keep_alive_id.model())
    }

    fn packet_id(&self) -> (r: i32) {
        0x04
    }

    fn encode(&self, buf: &mut Vec<u8>) -> (r: Result<(), CodecError>) {
        let _ = self.keep_alive_id.encode(buf);
        assert(buf@ =~= old(buf)@ + self.spec_packet_bytes());
        Ok(())
    }
}

/// The client's answer to a ping.
pub struct Pong {
    pub id: Int,
}

impl ServerboundPacketTrait for Pong {
    open spec fn spec_id() -> i32 {
        0x05
    }

    open spec fn spec_packet_bytes(&self) -> Seq<u8> {
        <Int as PacketCodec>::spec_encode(self.id.model())
    }

    fn packet_id(&self) -> (r: i32) {
        0x05
    }

    fn encode(&self, buf: &mut Vec<u8>) -> (r: Result<(), CodecError>) {
        let _ = self.id.encode(buf);
        assert(buf@ =~= old(buf)@ + self.spec_packet_bytes());
        Ok(())
    }
}

/// What became of a resource pack on the client.
pub struct ResourcePackResponse {
    pub uuid: Uuid,
    pub result: ResourcePackResult,
}

impl ServerboundPacketTrait for ResourcePackResponse {
    open spec fn spec_id() -> i32 {
        0x06
    }

    open spec fn spec_packet_bytes(&self) -> Seq<u8> {
        <Uuid as PacketCodec>::spec_encode(self.uuid.model())
            + <ResourcePackResult as PacketCodec>::spec_encode(self.result.model())
    }

    fn packet_id(&self) -> (r: i32) {
        0x06
    }

    fn encode(&self, buf: &mut Vec<u8>) -> (r: Result<(), CodecError>) {
        let _ = self.uuid.encode(buf);
        let _ = self.result.encode(buf);
        assert(buf@ =~= old(buf)@ + self.spec_packet_bytes());
        Ok(())
    }
}

/// What became of a resource pack.
#[derive(Debug, Clone, Copy, PartialEq, Eq)]
pub enum ResourcePackResult {
    SuccessfullyLoaded,
    Declined,
    FailedDownload,
    Accepted,
}

impl ResourcePackResult {
    /// The number that stands for the variant on the wire.
    pub open spec fn spec_id(self) -> i32 {
        match self {
            ResourcePackResult::SuccessfullyLoaded => 0,
            ResourcePackResult::Declined => 1,
            ResourcePackResult::FailedDownload => 2,
            ResourcePackResult::Accepted => 3,
        }
    }

    /// The variant a number read from the wire stands for.
    pub open spec fn spec_from_id(v: i32) -> Option<ResourcePackResult> {
        if v == 0 {
            Some(ResourcePackResult::SuccessfullyLoaded)
        } else if v == 1 {
            Some(ResourcePackResult::Declined)
        } else if v == 2 {
            Some(ResourcePackResult::FailedDownload)
        } else if v == 3 {
            Some(ResourcePackResult::Accepted)
        } else {
            None
        }
    }

    /// The number that stands for the variant on the wire.
    pub fn id(&self) -> (r: i32)
        ensures
            r == self.spec_id(),
    {
        match self {
            ResourcePackResult::SuccessfullyLoaded => 0,
            ResourcePackResult::Declined => 1,
            ResourcePackResult::FailedDownload => 2,
            ResourcePackResult::Accepted => 3,
        }
    }

    /// The variant a number read from the wire stands for.
    pub fn from_id(v: i32) -> (r: Option<ResourcePackResult>)
        ensures
            r == Self::spec_from_id(v),
    {
        if v == 0 {
            Some(ResourcePackResult::SuccessfullyLoaded)
        } else if v == 1 {
            Some(ResourcePackResult::Declined)
        } else if v == 2 {
            Some(ResourcePackResult::FailedDownload)
        } else if v == 3 {
            Some(ResourcePackResult::Accepted)
        } else {
            None
        }
    }
}

/// The variant's number as a VarInt; a number that names no variant is refused.
impl PacketCodec for ResourcePackResult {
    type Model = ResourcePackResult;

    open spec fn model(&self) -> ResourcePackResult {
        *self
    }

    open spec fn spec_encode(m: ResourcePackResult) -> Seq<u8> {
        <i32 as PacketCodec>::spec_encode(m.spec_id())
    }

    open spec fn spec_decode(s: Seq<u8>) -> Result<(ResourcePackResult, Seq<u8>), CodecError> {
        match <i32 as PacketCodec>::spec_decode(s) {
            Err(e) => Err(e),
            Ok((v, rest)) => match ResourcePackResult::spec_from_id(v) {
                Some(x) => Ok((x, rest)),
                None => Err(
                    CodecError::InvalidEnumValue {
                        enum_name: "ResourcePackResult",
                        value: v,
                        expected: "0, 1, 2 or 3",
                    },
                ),
            },
        }
    }

    open spec fn spec_decode_left(s: Seq<u8>) -> Seq<u8> {
        match <i32 as PacketCodec>::spec_decode(s) {
            Err(_) => <i32 as PacketCodec>::spec_decode_left(s),
            Ok((_, rest)) => rest,
        }
    }

    open spec fn spec_valid(m: ResourcePackResult) -> bool {
        true
    }

    fn encode(&self, buf: &mut Vec<u8>) -> (r: Result<(), CodecError>) {
        self.id().encode(buf)
    }

    fn decode(buf: &mut &[u8]) -> (r: Result<ResourcePackResult, CodecError>) {
        let value = match <i32 as PacketCodec>::decode(buf) {
            Ok(v) => v,
            Err(e) => return Err(e),
        };
        match ResourcePackResult::from_id(value) {
            Some(x) => Ok(x),
            None => Err(
                CodecError::InvalidEnumValue {
                    enum_name: "ResourcePackResult",
                    value,
                    expected: "0, 1, 2 or 3",
                },
            ),
        }
    }

    proof fn lemma_roundtrip(m: ResourcePackResult, rest: Seq<u8>) {
        <i32 as PacketCodec>::lemma_roundtrip(m.spec_id(), rest);
    }
}

/// The data packs the client knows.
pub struct ServerboundKnownPacks {
    pub known_packs: KnownPackList,
}

impl ServerboundPacketTrait for ServerboundKnownPacks {
    open spec fn spec_id() -> i32 {
        0x07
    }

    open spec fn spec_packet_bytes(&self) -> Seq<u8> {
        <KnownPackList as PacketCodec>::spec_encode(self.known_packs.model())
    }

    fn packet_id(&self) -> (r: i32) {
        0x07
    }

    fn encode(&self, buf: &mut Vec<u8>) -> (r: Result<(), CodecError>) {
        let _ = self.known_packs.encode(buf);
        assert(buf@ =~= old(buf)@ + self.spec_packet_bytes());
        Ok(())
    }
}

/// A custom action the player clicked in a dialog.
pub struct CustomClickAction {
    pub id: Identifier,
    pub payload: Vec<u8>,
}

impl ServerboundPacketTrait for CustomClickAction {
    open spec fn spec_id() -> i32 {
        0x08
    }

    open spec fn spec_packet_bytes(&self) -> Seq<u8> {
        <Identifier as PacketCodec>::spec_encode(self.id.model())
            + <Vec<u8> as PacketCodec>::spec_encode(self.payload.model())
    }

    fn packet_id(&self) -> (r: i32) {
        0x08
    }

    fn encode(&self, buf: &mut Vec<u8>) -> (r: Result<(), CodecError>) {
        let _ = self.id.encode(buf);
        let _ = self.payload.encode(buf);
        assert(buf@ =~= old(buf)@ + self.spec_packet_bytes());
        Ok(())
    }
}

/// The player accepts the server's code of conduct; it has no fields.
pub struct AcceptCodeOfConduct;

impl ServerboundPacketTrait for AcceptCodeOfConduct {
    open spec fn spec_id() -> i32 {
        0x09
    }

    open spec fn spec_packet_bytes(&self) -> Seq<u8> {
        Seq::empty()
    }

    fn packet_id(&self) -> (r: i32) {
        0x09
    }

    fn encode(&self, buf: &mut Vec<u8>) -> (r: Result<(), CodecError>) {
        assert(buf@ =~= old(buf)@ + self.spec_packet_bytes());
        Ok(())
    }
}
/// The values of `ChatMode` travel as fixed numbers: Enabled 0, CommandsOnly 1, Hidden 2.
/// Each is written as the one-byte VarInt of its number and read back from
/// it, whatever follows; every other number below 128 is refused.
pub proof fn lemma_chat_mode_wire(rest: Seq<u8>)
    ensures
        <ChatMode as PacketCodec>::spec_encode(ChatMode::Enabled) == seq![0u8],
        <ChatMode as PacketCodec>::spec_encode(ChatMode::CommandsOnly) == seq![1u8],
        <ChatMode as PacketCodec>::spec_encode(ChatMode::Hidden) == seq![2u8],
        <ChatMode as PacketCodec>::spec_decode(seq![0u8] + rest) == Ok::<(ChatMode, Seq<u8>), CodecError>(
            (ChatMode::Enabled, rest),
        ),
        <ChatMode as PacketCodec>::spec_decode(seq![1u8] + rest) == Ok::<(ChatMode, Seq<u8>), CodecError>(
            (ChatMode::CommandsOnly, rest),
        ),
        <ChatMode as PacketCodec>::spec_decode(seq![2u8] + rest) == Ok::<(ChatMode, Seq<u8>), CodecError>(
            (ChatMode::Hidden, rest),
        ),
        forall|v: u8|
            v < 128 && v != 0 && v != 1 && v != 2 ==> #[trigger] <ChatMode as PacketCodec>::spec_decode(
                seq![v] + rest,
            ) == Err::<(ChatMode, Seq<u8>), CodecError>(
                (CodecError::InvalidEnumValue { value: v as i32, enum_name: "Chat Mode", expected: "0, 1 or 2" }),
            ),
{
    lemma_varint_one_byte(0u8, rest);
    lemma_varint_one_byte(1u8, rest);
    lemma_varint_one_byte(2u8, rest);
    assert forall|v: u8| v < 128 && v != 0 && v != 1 && v != 2 implies #[trigger] <ChatMode as PacketCodec>::spec_decode(
        seq![v] + rest,
    ) == Err::<(ChatMode, Seq<u8>), CodecError>(
        (CodecError::InvalidEnumValue { value: v as i32, enum_name: "Chat Mode", expected: "0, 1 or 2" }),
    ) by {
        lemma_varint_one_byte(v, rest);
    }
}


/// The values of `MainHand` travel as fixed numbers: Left 0, Right 1.
/// Each is written as the one-byte VarInt of its number and read back from
/// it, whatever follows; every other number below 128 is refused.
pub proof fn lemma_main_hand_wire(rest: Seq<u8>)
    ensures
        <MainHand as PacketCodec>::spec_encode(MainHand::Left) == seq![0u8],
        <MainHand as PacketCodec>::spec_encode(MainHand::Right) == seq![1u8],
        <MainHand as PacketCodec>::spec_decode(seq![0u8] + rest) == Ok::<(MainHand, Seq<u8>), CodecError>(
            (MainHand::Left, rest),
        ),
        <MainHand as PacketCodec>::spec_decode(seq![1u8] + rest) == Ok::<(MainHand, Seq<u8>), CodecError>(
            (MainHand::Right, rest),
        ),
        forall|v: u8|
            v < 128 && v != 0 && v != 1 ==> #[trigger] <MainHand as PacketCodec>::spec_decode(
                seq![v] + rest,
            ) == Err::<(MainHand, Seq<u8>), CodecError>(
                (CodecError::InvalidEnumValue { value: v as i32, enum_name: "Main Hand", expected: "0 or 1" }),
            ),
{
    lemma_varint_one_byte(0u8, rest);
    lemma_varint_one_byte(1u8, rest);
    assert forall|v: u8| v < 128 && v != 0 && v != 1 implies #[trigger] <MainHand as PacketCodec>::spec_decode(
        seq![v] + rest,
    ) == Err::<(MainHand, Seq<u8>), CodecError>(
        (CodecError::InvalidEnumValue { value: v as i32, enum_name: "Main Hand", expected: "0 or 1" }),
    ) by {
        lemma_varint_one_byte(v, rest);
    }
}


/// The values of `ParticleStatus` travel as fixed numbers: All 0, Decreased 1, Minimal 2.
/// Each is written as the one-byte VarInt of its number and read back from
/// it, whatever follows; every other number below 128 is refused.
pub proof fn lemma_particle_status_wire(rest: Seq<u8>)
    ensures
        <ParticleStatus as PacketCodec>::spec_encode(ParticleStatus::All) == seq![0u8],
        <ParticleStatus as PacketCodec>::spec_encode(ParticleStatus::Decreased) == seq![1u8],
        <ParticleStatus as PacketCodec>::spec_encode(ParticleStatus::Minimal) == seq![2u8],
        <ParticleStatus as PacketCodec>::spec_decode(seq![0u8] + rest) == Ok::<(ParticleStatus, Seq<u8>), CodecError>(
            (ParticleStatus::All, rest),
        ),
        <ParticleStatus as PacketCodec>::spec_decode(seq![1u8] + rest) == Ok::<(ParticleStatus, Seq<u8>), CodecError>(
            (ParticleStatus::Decreased, rest),
        ),
        <ParticleStatus as PacketCodec>::spec_decode(seq![2u8] + rest) == Ok::<(ParticleStatus, Seq<u8>), CodecError>(
            (ParticleStatus::Minimal, rest),
        ),
        forall|v: u8|
            v < 128 && v != 0 && v != 1 && v != 2 ==> #[trigger] <ParticleStatus as PacketCodec>::spec_decode(
                seq![v] + rest,
            ) == Err::<(ParticleStatus, Seq<u8>), CodecError>(
                (CodecError::InvalidEnumValue { value: v as i32, enum_name: "Particle Status", expected: "0, 1 or 2" }),
            ),
{
    lemma_varint_one_byte(0u8, rest);
    lemma_varint_one_byte(1u8, rest);
    lemma_varint_one_byte(2u8, rest);
    assert forall|v: u8| v < 128 && v != 0 && v != 1 && v != 2 implies #[trigger] <ParticleStatus as PacketCodec>::spec_decode(
        seq![v] + rest,
    ) == Err::<(ParticleStatus, Seq<u8>), CodecError>(
        (CodecError::InvalidEnumValue { value: v as i32, enum_name: "Particle Status", expected: "0, 1 or 2" }),
    ) by {
        lemma_varint_one_byte(v, rest);
    }
}


/// The values of `ServerLinkType` travel as fixed numbers: BugReport 0, CommunityGuidelines 1, Support 2, Status 3, Feedback 4, Community 5, Website 6, Forums 7, News 8, Announcements 9.
/// Each is written as the one-byte VarInt of its number and read back from
/// it, whatever follows; every other number below 128 is refused.
pub proof fn lemma_server_link_type_wire(rest: Seq<u8>)
    ensures
        <ServerLinkType as PacketCodec>::spec_encode(ServerLinkType::BugReport) == seq![0u8],
        <ServerLinkType as PacketCodec>::spec_encode(ServerLinkType::CommunityGuidelines) == seq![1u8],
        <ServerLinkType as PacketCodec>::spec_encode(ServerLinkType::Support) == seq![2u8],
        <ServerLinkType as PacketCodec>::spec_encode(ServerLinkType::Status) == seq![3u8],
        <ServerLinkType as PacketCodec>::spec_encode(ServerLinkType::Feedback) == seq![4u8],
        <ServerLinkType as PacketCodec>::spec_encode(ServerLinkType::Community) == seq![5u8],
        <ServerLinkType as PacketCodec>::spec_encode(ServerLinkType::Website) == seq![6u8],
        <ServerLinkType as PacketCodec>::spec_encode(ServerLinkType::Forums) == seq![7u8],
        <ServerLinkType as PacketCodec>::spec_encode(ServerLinkType::News) == seq![8u8],
        <ServerLinkType as PacketCodec>::spec_encode(ServerLinkType::Announcements) == seq![9u8],
        <ServerLinkType as PacketCodec>::spec_decode(seq![0u8] + rest) == Ok::<(ServerLinkType, Seq<u8>), CodecError>(
            (ServerLinkType::BugReport, rest),
        ),
        <ServerLinkType as PacketCodec>::spec_decode(seq![1u8] + rest) == Ok::<(ServerLinkType, Seq<u8>), CodecError>(
            (ServerLinkType::CommunityGuidelines, rest),
        ),
        <ServerLinkType as PacketCodec>::spec_decode(seq![2u8] + rest) == Ok::<(ServerLinkType, Seq<u8>), CodecError>(
            (ServerLinkType::Support, rest),
        ),
        <ServerLinkType as PacketCodec>::spec_decode(seq![3u8] + rest) == Ok::<(ServerLinkType, Seq<u8>), CodecError>(
            (ServerLinkType::Status, rest),
        ),
        <ServerLinkType as PacketCodec>::spec_decode(seq![4u8] + rest) == Ok::<(ServerLinkType, Seq<u8>), CodecError>(
            (ServerLinkType::Feedback, rest),
        ),
        <ServerLinkType as PacketCodec>::spec_decode(seq![5u8] + rest) == Ok::<(ServerLinkType, Seq<u8>), CodecError>(
            (ServerLinkType::Community, rest),
        ),
        <ServerLinkType as PacketCodec>::spec_decode(seq![6u8] + rest) == Ok::<(ServerLinkType, Seq<u8>), CodecError>(
            (ServerLinkType::Website, rest),
        ),
        <ServerLinkType as PacketCodec>::spec_decode(seq![7u8] + rest) == Ok::<(ServerLinkType, Seq<u8>), CodecError>(
            (ServerLinkType::Forums, rest),
        ),
        <ServerLinkType as PacketCodec>::spec_decode(seq![8u8] + rest) == Ok::<(ServerLinkType, Seq<u8>), CodecError>(
            (ServerLinkType::News, rest),
        ),
        <ServerLinkType as PacketCodec>::spec_decode(seq![9u8] + rest) == Ok::<(ServerLinkType, Seq<u8>), CodecError>(
            (ServerLinkType::Announcements, rest),
        ),
        forall|v: u8|
            v < 128 && v != 0 && v != 1 && v != 2 && v != 3 && v != 4 && v != 5 && v != 6 && v != 7 && v != 8 && v != 9 ==> #[trigger] <ServerLinkType as PacketCodec>::spec_decode(
                seq![v] + rest,
            ) == Err::<(ServerLinkType, Seq<u8>), CodecError>(
                (CodecError::InvalidEnumValue { value: v as i32, enum_name: "ServerLinkType", expected: "0..9" }),
            ),
{
    lemma_varint_one_byte(0u8, rest);
    lemma_varint_one_byte(1u8, rest);
    lemma_varint_one_byte(2u8, rest);
    lemma_varint_one_byte(3u8, rest);
    lemma_varint_one_byte(4u8, rest);
    lemma_varint_one_byte(5u8, rest);
    lemma_varint_one_byte(6u8, rest);
    lemma_varint_one_byte(7u8, rest);
    lemma_varint_one_byte(8u8, rest);
    lemma_varint_one_byte(9u8, rest);
    assert forall|v: u8| v < 128 && v != 0 && v != 1 && v != 2 && v != 3 && v != 4 && v != 5 && v != 6 && v != 7 && v != 8 && v != 9 implies #[trigger] <ServerLinkType as PacketCodec>::spec_decode(
        seq![v] + rest,
    ) == Err::<(ServerLinkType, Seq<u8>), CodecError>(
        (CodecError::InvalidEnumValue { value: v as i32, enum_name: "ServerLinkType", expected: "0..9" }),
    ) by {
        lemma_varint_one_byte(v, rest);
    }
}


/// The values of `ResourcePackResult` travel as fixed numbers: SuccessfullyLoaded 0, Declined 1, FailedDownload 2, Accepted 3.
/// Each is written as the one-byte VarInt of its number and read back from
/// it, whatever follows; every other number below 128 is refused.
pub proof fn lemma_resource_pack_result_wire(rest: Seq<u8>)
    ensures
        <ResourcePackResult as PacketCodec>::spec_encode(ResourcePackResult::SuccessfullyLoaded) == seq![0u8],
        <ResourcePackResult as PacketCodec>::spec_encode(ResourcePackResult::Declined) == seq![1u8],
        <ResourcePackResult as PacketCodec>::spec_encode(ResourcePackResult::FailedDownload) == seq![2u8],
        <ResourcePackResult as PacketCodec>::spec_encode(ResourcePackResult::Accepted) == seq![3u8],
        <ResourcePackResult as PacketCodec>::spec_decode(seq![0u8] + rest) == Ok::<(ResourcePackResult, Seq<u8>), CodecError>(
            (ResourcePackResult::SuccessfullyLoaded, rest),
        ),
        <ResourcePackResult as PacketCodec>::spec_decode(seq![1u8] + rest) == Ok::<(ResourcePackResult, Seq<u8>), CodecError>(
            (ResourcePackResult::Declined, rest),
        ),
        <ResourcePackResult as PacketCodec>::spec_decode(seq![2u8] + rest) == Ok::<(ResourcePackResult, Seq<u8>), CodecError>(
            (ResourcePackResult::FailedDownload, rest),
        ),
        <ResourcePackResult as PacketCodec>::spec_decode(seq![3u8] + rest) == Ok::<(ResourcePackResult, Seq<u8>), CodecError>(
            (ResourcePackResult::Accepted, rest),
        ),
        forall|v: u8|
            v < 128 && v != 0 && v != 1 && v != 2 && v != 3 ==> #[trigger] <ResourcePackResult as PacketCodec>::spec_decode(
                seq![v] + rest,
            ) == Err::<(ResourcePackResult, Seq<u8>), CodecError>(
                (CodecError::InvalidEnumValue { value: v as i32, enum_name: "ResourcePackResult", expected: "0, 1, 2 or 3" }),
            ),
{
    lemma_varint_one_byte(0u8, rest);
    lemma_varint_one_byte(1u8, rest);
    lemma_varint_one_byte(2u8, rest);
    lemma_varint_one_byte(3u8, rest);
    assert forall|v: u8| v < 128 && v != 0 && v != 1 && v != 2 && v != 3 implies #[trigger] <ResourcePackResult as PacketCodec>::spec_decode(
        seq![v] + rest,
    ) == Err::<(ResourcePackResult, Seq<u8>), CodecError>(
        (CodecError::InvalidEnumValue { value: v as i32, enum_name: "ResourcePackResult", expected: "0, 1, 2 or 3" }),
    ) by {
        lemma_varint_one_byte(v, rest);
    }
}

/// The fixed ids of the configuration packets this module defines, each in its
/// direction: a packet is known on the wire by this number alone.
pub proof fn lemma_configuration_packet_ids()
    ensures
        <CookieRequest as ClientboundPacketTrait>::spec_id() == 0x00,
        <PluginMessage as ClientboundPacketTrait>::spec_id() == 0x01,
        <Disconnect as ClientboundPacketTrait>::spec_id() == 0x02,
        <FinishConfiguration as ClientboundPacketTrait>::spec_id() == 0x03,
        <KeepAlive as ClientboundPacketTrait>::spec_id() == 0x04,
        <Ping as ClientboundPacketTrait>::spec_id() == 0x05,
        <ResetChat as ClientboundPacketTrait>::spec_id() == 0x06,
        <RegistryData as ClientboundPacketTrait>::spec_id() == 0x07,
        <RemoveResourcePack as ClientboundPacketTrait>::spec_id() == 0x08,
        <AddResourcePack as ClientboundPacketTrait>::spec_id() == 0x09,
        <StoreCookie as ClientboundPacketTrait>::spec_id() == 0x0A,
        <Transfer as ClientboundPacketTrait>::spec_id() == 0x0B,
        <FeatureFlags as ClientboundPacketTrait>::spec_id() == 0x0C,
        <UpdateTags as ClientboundPacketTrait>::spec_id() == 0x0D,
        <ClientboundKnownPacks as ClientboundPacketTrait>::spec_id() == 0x0E,
        <CustomReportDetails as ClientboundPacketTrait>::spec_id() == 0x0F,
        <ServerLinks as ClientboundPacketTrait>::spec_id() == 0x10,
        <ClearDialog as ClientboundPacketTrait>::spec_id() == 0x11,
        <ShowDialog as ClientboundPacketTrait>::spec_id() == 0x12,
        <ClientInformation as ServerboundPacketTrait>::spec_id() == 0x00,
        <CookieResponse as ServerboundPacketTrait>::spec_id() == 0x01,
        <ServerboundPluginMessage as ServerboundPacketTrait>::spec_id() == 0x02,
        <AcknowledgeFinishConfiguration as ServerboundPacketTrait>::spec_id() == 0x03,
        <ServerboundKeepAlive as ServerboundPacketTrait>::spec_id() == 0x04,
        <Pong as ServerboundPacketTrait>::spec_id() == 0x05,
        <ResourcePackResponse as ServerboundPacketTrait>::spec_id() == 0x06,
        <ServerboundKnownPacks as ServerboundPacketTrait>::spec_id() == 0x07,
        <CustomClickAction as ServerboundPacketTrait>::spec_id() == 0x08,
        <AcceptCodeOfConduct as ServerboundPacketTrait>::spec_id() == 0x09,
{
}

} // verus!
