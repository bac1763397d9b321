use vstd::prelude::*;

verus! {

/// Recipient of a frame, from the low three bits of its tag byte.
#[derive(Clone, Copy, Debug, PartialEq, Eq, Structural)]
pub enum Target {
    NoTarget,
    Multiple,
    Single,
    Stats,
    All,
}

/// What a frame carries, from the same low three bits of its tag byte.
#[derive(Clone, Copy, Debug, PartialEq, Eq, Structural)]
pub enum Command {
    Qwd,
    Read,
    SetFixed,
    Empty,
}

pub open spec fn spec_target(tag: u8) -> Target {
    let bits = tag % 8;
    if bits == 3 {
        Target::Multiple
    } else if bits == 4 {
        Target::Single
    } else if bits == 5 {
        Target::Stats
    } else if bits == 6 {
        Target::All
    } else {
        Target::NoTarget
    }
}

pub open spec fn spec_command(tag: u8) -> Command {
    let bits = tag % 8;
    if bits == 0 {
        Command::Qwd
    } else if bits == 1 || (3 <= bits <= 6) {
        Command::Read
    } else if bits == 2 {
        Command::SetFixed
    } else {
        Command::Empty
    }
}

impl Target {
    /// Decodes the target from a frame tag byte.
    pub fn from_byte(value: &u8) -> (r: Target)
        ensures
            r == spec_target(*value),
    {
        let v = *value;
        let bits = v & 7;
        assert(bits == v % 8) by (bit_vector)
            requires
                bits == v & 7,
        ;
        match bits {
            3 => Target::Multiple,
            4 => Target::Single,
            5 => Target::Stats,
            6 => Target::All,
            _ => Target::NoTarget,
        }
    }
}

impl Command {
    /// Decodes the command from a frame tag byte.
    pub fn from_byte(value: &u8) -> (r: Command)
        ensures
            r == spec_command(*value),
    {
        let v = *value;
        let bits = v & 7;
        assert(bits == v % 8) by (bit_vector)
            requires
                bits == v & 7,
        ;
        match bits {
            0 => Command::Qwd,
            1 | 3..=6 => Command::Read,
            2 => Command::SetFixed,
            _ => Command::Empty,
        }
    }
}

/// Kind of a protocol message, from its leading tag byte.
#[derive(Clone, Copy, Debug, PartialEq, Eq, Structural)]
pub enum Message {
    Bad,
    Nop,
    Disconnect,
    UpdateStat, // [byte] [byte]
    NqVersion, // [long] server version
    NqSetview, // [short] entity number
    Sound, // <see code>
    NqTime, // [float] server time
    Print, // [byte] id [string] null terminated string
    Stufftext, // [string] stuffed into client's console buffer, the string should be \n terminated
    SetAngle, // [angle3] set the view angle to this absolute value
    ServerData, // [long] protocol ...
    Lightstyle, // [byte] [string]
    NqUpdateName, // [byte] [string]
    UpdateFrags, // [byte] [short]
    NqClientdata, // <shortbits + data>
    StopSound, // <see code>
    NqUpdateColors, // [byte] [byte] [byte]
    NqParticle, // [vec3] <variable>
    Damage,
    SpawnStatic,
    FteSpawnStatic2,
    SpawnBaseline,
    TempEntity, // variable
    SetPause, // [byte] on / off
    NqSignonnum, // [byte]  used for the signon sequence
    CenterPrint, // [string] to put in center of the screen
    Killedmonster,
    FoundSecret,
    SpawnStaticSound, // [coord3] [byte] samp [byte] vol [byte] aten
    Intermission, // [vec3_t] origin [vec3_t] angle
    Finale, // [string] text
    Cdtrack, // [byte] track
    Sellscreen,
    Smallkick, // set client punchangle to 2
    Bigkick, // set client punchangle to 4
    UpdatePing, // [byte] [short]
    UpdateEntertime, // [byte] [float]
    UpdateStatLong, // [byte] [long]
    Muzzleflash, // [short] entity
    UpdateUserinfo, // [byte] slot [long] uid [string] userinfo
    Download, // [short] size [size bytes]
    Playerinfo, // variable
    Nails, // [byte] num [48 bits] xyzpy 12 12 12 4 8
    ChokeCount, // [byte] packets choked
    Modellist, // [strings]
    Soundlist, // [strings]
    Packetentities, // [...]
    Deltapacketentities, // [...]
    Maxspeed, // maxspeed change, for prediction
    Entgravity, // gravity change, for prediction
    Setinfo, // setinfo on a client
    Serverinfo, // serverinfo
    UpdatePl, // [byte] [byte]
    Nails2, // [byte] num [52 bits] nxyzpy 8 12 12 12 4 8
    FteModellistshort, // [strings]
    FteSpawnbaseline2,
    EndOfDemo,
    QizmoVoice,
    FteVoiceChat,
    Unknown,
}

/// The message kinds under the name the readers use.
pub type MessageType = Message;

pub open spec fn spec_message(tag: u8) -> Message {
    match tag {
        0 => Message::Bad,
        1 => Message::Nop,
        2 => Message::Disconnect,
        3 => Message::UpdateStat,
        4 => Message::NqVersion,
        5 => Message::NqSetview,
        6 => Message::Sound,
        7 => Message::NqTime,
        8 => Message::Print,
        9 => Message::Stufftext,
        10 => Message::SetAngle,
        11 => Message::ServerData,
        12 => Message::Lightstyle,
        13 => Message::NqUpdateName,
        14 => Message::UpdateFrags,
        15 => Message::NqClientdata,
        16 => Message::StopSound,
        17 => Message::NqUpdateColors,
        18 => Message::NqParticle,
        19 => Message::Damage,
        20 => Message::SpawnStatic,
        21 => Message::FteSpawnStatic2,
        22 => Message::SpawnBaseline,
        23 => Message::TempEntity,
        24 => Message::SetPause,
        25 => Message::NqSignonnum,
        26 => Message::CenterPrint,
        27 => Message::Killedmonster,
        28 => Message::FoundSecret,
        29 => Message::SpawnStaticSound,
        30 => Message::Intermission,
        31 => Message::Finale,
        32 => Message::Cdtrack,
        33 => Message::Sellscreen,
        34 => Message::Smallkick,
        35 => Message::Bigkick,
        36 => Message::UpdatePing,
        37 => Message::UpdateEntertime,
        38 => Message::UpdateStatLong,
        39 => Message::Muzzleflash,
        40 => Message::UpdateUserinfo,
        41 => Message::Download,
        42 => Message::Playerinfo,
        43 => Message::Nails,
        44 => Message::ChokeCount,
        45 => Message::Modellist,
        46 => Message::Soundlist,
        47 => Message::Packetentities,
        48 => Message::Deltapacketentities,
        49 => Message::Maxspeed,
        50 => Message::Entgravity,
        51 => Message::Setinfo,
        52 => Message::Serverinfo,
        53 => Message::UpdatePl,
        54 => Message::Nails2,
        60 => Message::FteModellistshort,
        66 => Message::FteSpawnbaseline2,
        69 => Message::EndOfDemo,
        83 => Message::QizmoVoice,
        84 => Message::FteVoiceChat,
        _ => Message::Unknown,
    }
}

impl Message {
    /// Decodes a message tag byte.
    pub fn from_byte(value: &u8) -> (r: Message)
        ensures
            r == spec_message(*value),
    {
        match *value {
            0 => Message::Bad,
            1 => Message::Nop,
            2 => Message::Disconnect,
            3 => Message::UpdateStat,
            4 => Message::NqVersion,
            5 => Message::NqSetview,
            6 => Message::Sound,
            7 => Message::NqTime,
            8 => Message::Print,
            9 => Message::Stufftext,
            10 => Message::SetAngle,
            11 => Message::ServerData,
            12 => Message::Lightstyle,
            13 => Message::NqUpdateName,
            14 => Message::UpdateFrags,
            15 => Message::NqClientdata,
            16 => Message::StopSound,
            17 => Message::NqUpdateColors,
            18 => Message::NqParticle,
            19 => Message::Damage,
            20 => Message::SpawnStatic,
            21 => Message::FteSpawnStatic2,
            22 => Message::SpawnBaseline,
            23 => Message::TempEntity,
            24 => Message::SetPause,
            25 => Message::NqSignonnum,
            26 => Message::CenterPrint,
            27 => Message::Killedmonster,
            28 => Message::FoundSecret,
            29 => Message::SpawnStaticSound,
            30 => Message::Intermission,
            31 => Message::Finale,
            32 => Message::Cdtrack,
            33 => Message::Sellscreen,
            34 => Message::Smallkick,
            35 => Message::Bigkick,
            36 => Message::UpdatePing,
            37 => Message::UpdateEntertime,
            38 => Message::UpdateStatLong,
            39 => Message::Muzzleflash,
            40 => Message::UpdateUserinfo,
            41 => Message::Download,
            42 => Message::Playerinfo,
            43 => Message::Nails,
            44 => Message::ChokeCount,
            45 => Message::Modellist,
            46 => Message::Soundlist,
            47 => Message::Packetentities,
            48 => Message::Deltapacketentities,
            49 => Message::Maxspeed,
            50 => Message::Entgravity,
            51 => Message::Setinfo,
            52 => Message::Serverinfo,
            53 => Message::UpdatePl,
            54 => Message::Nails2,
            60 => Message::FteModellistshort,
            66 => Message::FteSpawnbaseline2,
            69 => Message::EndOfDemo,
            83 => Message::QizmoVoice,
            84 => Message::FteVoiceChat,
            _ => Message::Unknown,
        }
    }
}

/// Kind of an out-of-band record carried inside a frame.
#[derive(Clone, Copy, Debug, PartialEq, Eq, Structural)]
pub enum HiddenMessage {
    AntilagPosition,
    Usercmd,
    UsercmdWeapons,
    Demoinfo,
    CommentaryTrack,
    CommentaryData,
    CommentaryTextSegment,
    Dmgdone,
    UsercmdWeaponsSs,
    UsercmdWeaponInstruction,
    PausedDuration,
    Extended,
    Unknown,
}

pub open spec fn spec_hidden_message(kind: u16) -> HiddenMessage {
    match kind {
        0x0000 => HiddenMessage::AntilagPosition,
        0x0001 => HiddenMessage::Usercmd,
        0x0002 => HiddenMessage::UsercmdWeapons,
        0x0003 => HiddenMessage::Demoinfo,
        0x0004 => HiddenMessage::CommentaryTrack,
        0x0005 => HiddenMessage::CommentaryData,
        0x0006 => HiddenMessage::CommentaryTextSegment,
        0x0007 => HiddenMessage::Dmgdone,
        0x0008 => HiddenMessage::UsercmdWeaponsSs,
        0x0009 => HiddenMessage::UsercmdWeaponInstruction,
        0x000a => HiddenMessage::PausedDuration,
        0xffff => HiddenMessage::Extended,
        _ => HiddenMessage::Unknown,
    }
}

impl HiddenMessage {
    /// Decodes a hidden-record kind.
    pub fn from_u16(value: &u16) -> (r: HiddenMessage)
        ensures
            r == spec_hidden_message(*value),
    {
        match *value {
            0x0000 => HiddenMessage::AntilagPosition,
            0x0001 => HiddenMessage::Usercmd,
            0x0002 => HiddenMessage::UsercmdWeapons,
            0x0003 => HiddenMessage::Demoinfo,
            0x0004 => HiddenMessage::CommentaryTrack,
            0x0005 => HiddenMessage::CommentaryData,
            0x0006 => HiddenMessage::CommentaryTextSegment,
            0x0007 => HiddenMessage::Dmgdone,
            0x0008 => HiddenMessage::UsercmdWeaponsSs,
            0x0009 => HiddenMessage::UsercmdWeaponInstruction,
            0x000a => HiddenMessage::PausedDuration,
            0xffff => HiddenMessage::Extended,
            _ => HiddenMessage::Unknown,
        }
    }
}

/// Priority of a print message.
#[derive(Clone, Copy, Debug, PartialEq, Eq, Structural)]
pub enum PrintId {
    Low,
    Medium,
    High,
    Chat,
    Unknown,
}

pub open spec fn spec_print_id(value: u8) -> PrintId {
    match value {
        0 => PrintId::Low,
        1 => PrintId::Medium,
        2 => PrintId::High,
        3 => PrintId::Chat,
        _ => PrintId::Unknown,
    }
}

impl PrintId {
    /// Decodes a print id byte.
    pub fn from_byte(value: &u8) -> (r: PrintId)
        ensures
            r == spec_print_id(*value),
    {
        match *value {
            0 => PrintId::Low,
            1 => PrintId::Medium,
            2 => PrintId::High,
            3 => PrintId::Chat,
            _ => PrintId::Unknown,
        }
    }
}

} // verus!
