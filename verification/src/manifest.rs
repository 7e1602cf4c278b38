//! The game manifest that a host publishes and a joining peer checks its ROM
//! against.

use vstd::prelude::*;
use crate::emulator::DEFAULT_CORE;
use crate::text::{owned, str_eq};

verus! {

/// What identifies a netplay session's game and sync settings.
#[derive(Debug, Clone)]
pub struct GameManifest {
    pub game_title: String,
    pub rom_hash: String,
    pub emulator_core: String,
    pub sync_method: String,
    pub frame_delay: i32,
}

/// The manifest's fields, each by its view.
pub struct ManifestView {
    pub game_title: Seq<char>,
    pub rom_hash: Seq<char>,
    pub emulator_core: Seq<char>,
    pub sync_method: Seq<char>,
    pub frame_delay: i32,
}

impl View for GameManifest {
    type V = ManifestView;

    open spec fn view(&self) -> ManifestView {
        ManifestView {
            game_title: self.game_title@,
            rom_hash: self.rom_hash@,
            emulator_core: self.emulator_core@,
            sync_method: self.sync_method@,
            frame_delay: self.frame_delay,
        }
    }
}

/// The sync method a manifest has when it names none.
pub fn default_sync_method() -> (r: String)
    ensures
        r@ == "rollback"@,
{
    owned("rollback")
}

/// The rollback frame delay a manifest has when it names none.
pub fn default_frame_delay() -> (r: i32)
    ensures
        r == 2,
{
    2
}

/// The character view of an optional owned string.
pub open spec fn opt_string(o: Option<String>) -> Option<Seq<char>> {
    match o {
        Some(s) => Some(s@),
        None => None,
    }
}

/// The manifest a host publishes: the given title or else the ROM file's
/// stem, the given core or else the default core, rollback sync.
pub open spec fn host_manifest(
    title: Option<Seq<char>>,
    rom_stem: Seq<char>,
    core: Option<Seq<char>>,
    rom_hash: Seq<char>,
    frame_delay: i32,
) -> ManifestView {
    ManifestView {
        game_title: match title {
            Some(t) => t,
            None => rom_stem,
        },
        rom_hash: rom_hash,
        emulator_core: match core {
            Some(c) => c,
            None => DEFAULT_CORE@,
        },
        sync_method: "rollback"@,
        frame_delay: frame_delay,
    }
}

/// Each field of a host's manifest depends on its own input alone: the
/// chosen core is used whatever the title, the given title whatever the
/// core, the ROM stem only when no title is given, the default core only
/// when no core is given; the hash and delay are passed through and the
/// sync method is always rollback.
pub proof fn lemma_host_manifest_fields(
    title: Option<Seq<char>>,
    rom_stem: Seq<char>,
    core: Option<Seq<char>>,
    rom_hash: Seq<char>,
    frame_delay: i32,
    other_title: Option<Seq<char>>,
    other_stem: Seq<char>,
    other_core: Option<Seq<char>>,
)
    ensures
        core matches Some(c) ==> host_manifest(title, rom_stem, core, rom_hash, frame_delay).emulator_core == c,
        core is None ==> host_manifest(title, rom_stem, core, rom_hash, frame_delay).emulator_core == DEFAULT_CORE@,
        title matches Some(t) ==> host_manifest(title, rom_stem, core, rom_hash, frame_delay).game_title == t,
        title is None ==> host_manifest(title, rom_stem, core, rom_hash, frame_delay).game_title == rom_stem,
        host_manifest(title, rom_stem, core, rom_hash, frame_delay).emulator_core
            == host_manifest(other_title, other_stem, core, rom_hash, frame_delay).emulator_core,
        host_manifest(title, rom_stem, core, rom_hash, frame_delay).game_title
            == host_manifest(title, rom_stem, other_core, rom_hash, frame_delay).game_title,
        host_manifest(title, rom_stem, core, rom_hash, frame_delay).rom_hash == rom_hash,
        host_manifest(title, rom_stem, core, rom_hash, frame_delay).frame_delay == frame_delay,
        host_manifest(title, rom_stem, core, rom_hash, frame_delay).sync_method == "rollback"@,
{
}

impl GameManifest {
    /// Builds the manifest for a hosted ROM.
    pub fn for_host(
        title: Option<String>,
        rom_stem: &str,
        core: Option<String>,
        rom_hash: String,
        frame_delay: i32,
    ) -> (m: GameManifest)
        ensures
            m@ == host_manifest(opt_string(title), rom_stem@, opt_string(core), rom_hash@, frame_delay),
            m.game_title@ == match title { Some(t) => t@, None => rom_stem@ },
            m.emulator_core@ == match core { Some(c) => c@, None => DEFAULT_CORE@ },
            m.rom_hash@ == rom_hash@,
            m.sync_method@ == "rollback"@,
            m.frame_delay == frame_delay,
    {
        let game_title = match title {
            Some(t) => t,
            None => owned(rom_stem),
        };
        let emulator_core = match core {
            Some(c) => c,
            None => owned(DEFAULT_CORE),
        };
        GameManifest {
            game_title,
            rom_hash,
            emulator_core,
            sync_method: default_sync_method(),
            frame_delay,
        }
    }

    /// Whether a locally computed ROM hash is the one the manifest expects.
    pub fn matches_rom(&self, local_hash: &str) -> (r: bool)
        ensures
            r == (local_hash@ == self.rom_hash@),
    {
        str_eq(local_hash, self.rom_hash.as_str())
    }

    /// The join flow's ROM check: a local ROM whose hash is not the one the
    /// manifest expects refuses the join.
    pub fn rom_check(&self, local_hash: &str) -> (r: Result<(), String>)
        ensures
            local_hash@ == self.rom_hash@ ==> r is Ok,
            local_hash@ != self.rom_hash@ ==> (r matches Err(e) && e@ == "ROM hash mismatch"@),
    {
        if self.matches_rom(local_hash) {
            Ok(())
        } else {
            Err(owned("ROM hash mismatch"))
        }
    }
}

} // verus!
