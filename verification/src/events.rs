//! The typed events that one log line can describe, and the closed
//! cause-of-death vocabulary with its stable wire ordinals.

use vstd::prelude::*;

verus! {

/// The closed cause-of-death vocabulary. The ordinal of each variant
/// (see [`MeansOfDeath::spec_ordinal`]) is part of the wire contract:
/// a `Kill` log line carries the cause as its decimal ordinal.
#[derive(Debug, Clone, Copy, PartialEq, Eq, PartialOrd, Ord, Hash, Structural)]
pub enum MeansOfDeath {
    ModUnknown,
    ModShotgun,
    ModGauntlet,
    ModMachinegun,
    ModGrenade,
    ModGrenadeSplash,
    ModRocket,
    ModRocketSplash,
    ModPlasma,
    ModPlasmaSplash,
    ModRailgun,
    ModLightning,
    ModBfg,
    ModBfgSplash,
    ModWater,
    ModSlime,
    ModLava,
    ModCrush,
    ModTelefrag,
    ModFalling,
    ModSuicide,
    ModTargetLaser,
    ModTriggerHurt,
    ModGrapple,
}

impl MeansOfDeath {
    /// The stable wire ordinal of this cause, in 0..=23.
    pub open spec fn spec_ordinal(self) -> u32 {
        match self {
            MeansOfDeath::ModUnknown => 0,
            MeansOfDeath::ModShotgun => 1,
            MeansOfDeath::ModGauntlet => 2,
            MeansOfDeath::ModMachinegun => 3,
            MeansOfDeath::ModGrenade => 4,
            MeansOfDeath::ModGrenadeSplash => 5,
            MeansOfDeath::ModRocket => 6,
            MeansOfDeath::ModRocketSplash => 7,
            MeansOfDeath::ModPlasma => 8,
            MeansOfDeath::ModPlasmaSplash => 9,
            MeansOfDeath::ModRailgun => 10,
            MeansOfDeath::ModLightning => 11,
            MeansOfDeath::ModBfg => 12,
            MeansOfDeath::ModBfgSplash => 13,
            MeansOfDeath::ModWater => 14,
            MeansOfDeath::ModSlime => 15,
            MeansOfDeath::ModLava => 16,
            MeansOfDeath::ModCrush => 17,
            MeansOfDeath::ModTelefrag => 18,
            MeansOfDeath::ModFalling => 19,
            MeansOfDeath::ModSuicide => 20,
            MeansOfDeath::ModTargetLaser => 21,
            MeansOfDeath::ModTriggerHurt => 22,
            MeansOfDeath::ModGrapple => 23,
        }
    }

    /// Decoding an ordinal back to a cause: defined exactly on 0..=23.
    pub open spec fn spec_from_ordinal(n: u32) -> Option<MeansOfDeath> {
        if n == 0 {
            Some(MeansOfDeath::ModUnknown)
        } else if n == 1 {
            Some(MeansOfDeath::ModShotgun)
        } else if n == 2 {
            Some(MeansOfDeath::ModGauntlet)
        } else if n == 3 {
            Some(MeansOfDeath::ModMachinegun)
        } else if n == 4 {
            Some(MeansOfDeath::ModGrenade)
        } else if n == 5 {
            Some(MeansOfDeath::ModGrenadeSplash)
        } else if n == 6 {
            Some(MeansOfDeath::ModRocket)
        } else if n == 7 {
            Some(MeansOfDeath::ModRocketSplash)
        } else if n == 8 {
            Some(MeansOfDeath::ModPlasma)
        } else if n == 9 {
            Some(MeansOfDeath::ModPlasmaSplash)
        } else if n == 10 {
            Some(MeansOfDeath::ModRailgun)
        } else if n == 11 {
            Some(MeansOfDeath::ModLightning)
        } else if n == 12 {
            Some(MeansOfDeath::ModBfg)
        } else if n == 13 {
            Some(MeansOfDeath::ModBfgSplash)
        } else if n == 14 {
            Some(MeansOfDeath::ModWater)
        } else if n == 15 {
            Some(MeansOfDeath::ModSlime)
        } else if n == 16 {
            Some(MeansOfDeath::ModLava)
        } else if n == 17 {
            Some(MeansOfDeath::ModCrush)
        } else if n == 18 {
            Some(MeansOfDeath::ModTelefrag)
        } else if n == 19 {
            Some(MeansOfDeath::ModFalling)
        } else if n == 20 {
            Some(MeansOfDeath::ModSuicide)
        } else if n == 21 {
            Some(MeansOfDeath::ModTargetLaser)
        } else if n == 22 {
            Some(MeansOfDeath::ModTriggerHurt)
        } else if n == 23 {
            Some(MeansOfDeath::ModGrapple)
        } else {
            None
        }
    }

    /// Decode a wire ordinal. Succeeds exactly on ordinals 0..=23.
    pub fn from_ordinal(n: u32) -> (r: Option<MeansOfDeath>)
        ensures
            r == Self::spec_from_ordinal(n),
            r is Some <==> n <= 23,
    {
        match n {
            0 => Some(MeansOfDeath::ModUnknown),
            1 => Some(MeansOfDeath::ModShotgun),
            2 => Some(MeansOfDeath::ModGauntlet),
            3 => Some(MeansOfDeath::ModMachinegun),
            4 => Some(MeansOfDeath::ModGrenade),
            5 => Some(MeansOfDeath::ModGrenadeSplash),
            6 => Some(MeansOfDeath::ModRocket),
            7 => Some(MeansOfDeath::ModRocketSplash),
            8 => Some(MeansOfDeath::ModPlasma),
            9 => Some(MeansOfDeath::ModPlasmaSplash),
            10 => Some(MeansOfDeath::ModRailgun),
            11 => Some(MeansOfDeath::ModLightning),
            12 => Some(MeansOfDeath::ModBfg),
            13 => Some(MeansOfDeath::ModBfgSplash),
            14 => Some(MeansOfDeath::ModWater),
            15 => Some(MeansOfDeath::ModSlime),
            16 => Some(MeansOfDeath::ModLava),
            17 => Some(MeansOfDeath::ModCrush),
            18 => Some(MeansOfDeath::ModTelefrag),
            19 => Some(MeansOfDeath::ModFalling),
            20 => Some(MeansOfDeath::ModSuicide),
            21 => Some(MeansOfDeath::ModTargetLaser),
            22 => Some(MeansOfDeath::ModTriggerHurt),
            23 => Some(MeansOfDeath::ModGrapple),
            _ => None,
        }
    }

    /// The wire ordinal of this cause, as an executable value.
    pub fn ordinal(&self) -> (r: u32)
        ensures
            r == self.spec_ordinal(),
    {
        match self {
            MeansOfDeath::ModUnknown => 0,
            MeansOfDeath::ModShotgun => 1,
            MeansOfDeath::ModGauntlet => 2,
            MeansOfDeath::ModMachinegun => 3,
            MeansOfDeath::ModGrenade => 4,
            MeansOfDeath::ModGrenadeSplash => 5,
            MeansOfDeath::ModRocket => 6,
            MeansOfDeath::ModRocketSplash => 7,
            MeansOfDeath::ModPlasma => 8,
            MeansOfDeath::ModPlasmaSplash => 9,
            MeansOfDeath::ModRailgun => 10,
            MeansOfDeath::ModLightning => 11,
            MeansOfDeath::ModBfg => 12,
            MeansOfDeath::ModBfgSplash => 13,
            MeansOfDeath::ModWater => 14,
            MeansOfDeath::ModSlime => 15,
            MeansOfDeath::ModLava => 16,
            MeansOfDeath::ModCrush => 17,
            MeansOfDeath::ModTelefrag => 18,
            MeansOfDeath::ModFalling => 19,
            MeansOfDeath::ModSuicide => 20,
            MeansOfDeath::ModTargetLaser => 21,
            MeansOfDeath::ModTriggerHurt => 22,
            MeansOfDeath::ModGrapple => 23,
        }
    }

    /// The serialized label of this cause, in spec form.
    pub open spec fn spec_label(self) -> Seq<char> {
        match self {
            MeansOfDeath::ModUnknown => "MOD_UNKNOWN"@,
            MeansOfDeath::ModShotgun => "MOD_SHOTGUN"@,
            MeansOfDeath::ModGauntlet => "MOD_GAUNTLET"@,
            MeansOfDeath::ModMachinegun => "MOD_MACHINEGUN"@,
            MeansOfDeath::ModGrenade => "MOD_GRENADE"@,
            MeansOfDeath::ModGrenadeSplash => "MOD_GRENADE_SPLASH"@,
            MeansOfDeath::ModRocket => "MOD_ROCKET"@,
            MeansOfDeath::ModRocketSplash => "MOD_ROCKET_SPLASH"@,
            MeansOfDeath::ModPlasma => "MOD_PLASMA"@,
            MeansOfDeath::ModPlasmaSplash => "MOD_PLASMA_SPLASH"@,
            MeansOfDeath::ModRailgun => "MOD_RAILGUN"@,
            MeansOfDeath::ModLightning => "MOD_LIGHTNING"@,
            MeansOfDeath::ModBfg => "MOD_BFG"@,
            MeansOfDeath::ModBfgSplash => "MOD_BFG_SPLASH"@,
            MeansOfDeath::ModWater => "MOD_WATER"@,
            MeansOfDeath::ModSlime => "MOD_SLIME"@,
            MeansOfDeath::ModLava => "MOD_LAVA"@,
            MeansOfDeath::ModCrush => "MOD_CRUSH"@,
            MeansOfDeath::ModTelefrag => "MOD_TELEFRAG"@,
            MeansOfDeath::ModFalling => "MOD_FALLING"@,
            MeansOfDeath::ModSuicide => "MOD_SUICIDE"@,
            MeansOfDeath::ModTargetLaser => "MOD_TARGET_LASER"@,
            MeansOfDeath::ModTriggerHurt => "MOD_TRIGGER_HURT"@,
            MeansOfDeath::ModGrapple => "MOD_GRAPPLE"@,
        }
    }

    /// The `MOD_`-prefixed uppercase label under which this cause serializes.
    pub fn label(&self) -> (r: &'static str)
        ensures
            r@ == self.spec_label(),
    {
        match self {
            MeansOfDeath::ModUnknown => "MOD_UNKNOWN",
            MeansOfDeath::ModShotgun => "MOD_SHOTGUN",
            MeansOfDeath::ModGauntlet => "MOD_GAUNTLET",
            MeansOfDeath::ModMachinegun => "MOD_MACHINEGUN",
            MeansOfDeath::ModGrenade => "MOD_GRENADE",
            MeansOfDeath::ModGrenadeSplash => "MOD_GRENADE_SPLASH",
            MeansOfDeath::ModRocket => "MOD_ROCKET",
            MeansOfDeath::ModRocketSplash => "MOD_ROCKET_SPLASH",
            MeansOfDeath::ModPlasma => "MOD_PLASMA",
            MeansOfDeath::ModPlasmaSplash => "MOD_PLASMA_SPLASH",
            MeansOfDeath::ModRailgun => "MOD_RAILGUN",
            MeansOfDeath::ModLightning => "MOD_LIGHTNING",
            MeansOfDeath::ModBfg => "MOD_BFG",
            MeansOfDeath::ModBfgSplash => "MOD_BFG_SPLASH",
            MeansOfDeath::ModWater => "MOD_WATER",
            MeansOfDeath::ModSlime => "MOD_SLIME",
            MeansOfDeath::ModLava => "MOD_LAVA",
            MeansOfDeath::ModCrush => "MOD_CRUSH",
            MeansOfDeath::ModTelefrag => "MOD_TELEFRAG",
            MeansOfDeath::ModFalling => "MOD_FALLING",
            MeansOfDeath::ModSuicide => "MOD_SUICIDE",
            MeansOfDeath::ModTargetLaser => "MOD_TARGET_LASER",
            MeansOfDeath::ModTriggerHurt => "MOD_TRIGGER_HURT",
            MeansOfDeath::ModGrapple => "MOD_GRAPPLE",
        }
    }
}

impl Default for MeansOfDeath {
    fn default() -> (r: Self)
        ensures
            r == MeansOfDeath::ModMachinegun,
    {
        MeansOfDeath::ModMachinegun
    }
}

/// Decoding a cause ordinal is the inverse of taking the ordinal.
pub proof fn lemma_ordinal_roundtrip(m: MeansOfDeath)
    ensures
        m.spec_ordinal() <= 23,
        MeansOfDeath::spec_from_ordinal(m.spec_ordinal()) == Some(m),
{
}

/// A player's display-name (re)binding, with the nickname borrowed from the
/// original log line.
#[derive(Debug)]
pub struct ClientUserInfoChanged<'a> {
    pub id: u32,
    pub nickname: &'a str,
}

/// One kill, as reported by the server.
#[derive(Debug, Clone, Copy, PartialEq, Eq, Structural)]
pub struct Kill {
    pub victim: u32,
    pub killer: u32,
    pub mean: MeansOfDeath,
}

/// The payload of one parsed log line.
#[derive(Debug)]
pub enum EventKind<'a> {
    InitGame,
    ClientUserInfoChanged(ClientUserInfoChanged<'a>),
    Kill(Kill),
    ShutdownGame,
    Irrelevant,
}

/// One parsed log line: its `hour:minute` timestamp and its payload.
#[derive(Debug)]
pub struct Event<'a> {
    pub date: (u32, u32),
    pub kind: EventKind<'a>,
}

/// Mathematical form of [`ClientUserInfoChanged`]: the nickname as a
/// character sequence.
pub struct SpecClientUserInfoChanged {
    pub id: u32,
    pub nickname: Seq<char>,
}

/// Mathematical form of [`EventKind`].
pub enum SpecEventKind {
    InitGame,
    ClientUserInfoChanged(SpecClientUserInfoChanged),
    Kill(Kill),
    ShutdownGame,
    Irrelevant,
}

/// Mathematical form of [`Event`].
pub struct SpecEvent {
    pub date: (u32, u32),
    pub kind: SpecEventKind,
}

impl View for ClientUserInfoChanged<'_> {
    type V = SpecClientUserInfoChanged;

    open spec fn view(&self) -> SpecClientUserInfoChanged {
        SpecClientUserInfoChanged { id: self.id, nickname: self.nickname@ }
    }
}

impl View for EventKind<'_> {
    type V = SpecEventKind;

    open spec fn view(&self) -> SpecEventKind {
        match self {
            EventKind::InitGame => SpecEventKind::InitGame,
            EventKind::ClientUserInfoChanged(c) => SpecEventKind::ClientUserInfoChanged(c@),
            EventKind::Kill(k) => SpecEventKind::Kill(*k),
            EventKind::ShutdownGame => SpecEventKind::ShutdownGame,
            EventKind::Irrelevant => SpecEventKind::Irrelevant,
        }
    }
}

impl View for Event<'_> {
    type V = SpecEvent;

    open spec fn view(&self) -> SpecEvent {
        SpecEvent { date: self.date, kind: self.kind@ }
    }
}

} // verus!
