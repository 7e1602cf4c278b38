use braid::emulator::{build_retroarch_command, command_line_text, DEFAULT_CORE};
use braid::hash::{compute_rom_hash, to_lower_hex};
use braid::manifest::{default_frame_delay, default_sync_method, GameManifest};

fn words(ws: &[&str]) -> Vec<String> {
    ws.iter().map(|w| w.to_string()).collect()
}

#[test]
fn host_command_matches_readme_shape() {
    let cmd = build_retroarch_command("retroarch", "snes9x_libretro", "/roms/game.sfc", "host", None, None).unwrap();
    assert_eq!(cmd, words(&["retroarch", "-L", "snes9x_libretro", "--host", "/roms/game.sfc"]));
}

#[test]
fn peer_command_carries_connect_address() {
    let cmd = build_retroarch_command("retroarch", "core", "/roms/game.sfc", "peer", Some("203.0.113.10"), None).unwrap();
    assert_eq!(cmd, words(&["retroarch", "-L", "core", "--connect", "203.0.113.10", "/roms/game.sfc"]));
}

#[test]
fn host_ignores_connect_address() {
    let cmd = build_retroarch_command("ra", "core", "rom", "host", Some("1.2.3.4"), None).unwrap();
    assert_eq!(cmd, words(&["ra", "-L", "core", "--host", "rom"]));
}

#[test]
fn extra_args_come_before_rom() {
    let extra = words(&["--verbose", "--fullscreen"]);
    let cmd = build_retroarch_command("ra", "core", "rom", "host", None, Some(&extra)).unwrap();
    assert_eq!(cmd, words(&["ra", "-L", "core", "--host", "--verbose", "--fullscreen", "rom"]));
    let none: Vec<String> = Vec::new();
    let cmd = build_retroarch_command("ra", "core", "rom", "peer", Some("h"), Some(&none)).unwrap();
    assert_eq!(cmd, words(&["ra", "-L", "core", "--connect", "h", "rom"]));
}

#[test]
fn peer_without_address_is_refused() {
    let err = build_retroarch_command("ra", "core", "rom", "peer", None, None).unwrap_err();
    assert_eq!(err, "connect_address is required for peer role");
}

#[test]
fn unknown_role_is_refused() {
    let err = build_retroarch_command("ra", "core", "rom", "spectator", None, None).unwrap_err();
    assert_eq!(err, "unknown role: spectator");
    let err = build_retroarch_command("ra", "core", "rom", "Host", None, None).unwrap_err();
    assert_eq!(err, "unknown role: Host");
}

#[test]
fn command_line_is_space_joined() {
    let cmd = words(&["retroarch", "-L", "core", "--host", "/roms/a b.sfc"]);
    assert_eq!(command_line_text(&cmd), "retroarch -L core --host /roms/a b.sfc");
    assert_eq!(command_line_text(&[]), "");
    assert_eq!(command_line_text(&words(&["one"])), "one");
}

#[test]
fn default_core_name() {
    assert_eq!(DEFAULT_CORE, "snes9x_libretro");
}

#[test]
fn rom_hash_of_known_inputs() {
    assert_eq!(compute_rom_hash(b"abc"), "a9993e364706816aba3e25717850c26c9cd0d89d");
    assert_eq!(compute_rom_hash(b""), "da39a3ee5e6b4b0d3255bfef95601890afd80709");
    assert_eq!(
        compute_rom_hash(b"The quick brown fox jumps over the lazy dog"),
        "2fd4e1c67a2d28fced849ee1bb76e7391b93eb12"
    );
}

#[test]
fn rom_hash_shape() {
    let data: Vec<u8> = (0..10_000u32).map(|i| (i % 251) as u8).collect();
    let h = compute_rom_hash(&data);
    assert_eq!(h.len(), 40);
    assert!(h.chars().all(|c| c.is_ascii_digit() || ('a'..='f').contains(&c)));
    assert_eq!(h, compute_rom_hash(&data));
    let mut other = data.clone();
    other[0] ^= 1;
    assert_ne!(h, compute_rom_hash(&other));
}

#[test]
fn lower_hex_rendering() {
    assert_eq!(to_lower_hex(&[0x0f, 0xa0, 0x00, 0xff]), "0fa000ff");
    assert_eq!(to_lower_hex(&[]), "");
}

#[test]
fn manifest_defaults() {
    assert_eq!(default_sync_method(), "rollback");
    assert_eq!(default_frame_delay(), 2);
}

#[test]
fn host_manifest_uses_given_fields() {
    let m = GameManifest::for_host(Some("Chrono".to_string()), "game", Some("bsnes".to_string()), "abc".to_string(), 3);
    assert_eq!(m.game_title, "Chrono");
    assert_eq!(m.emulator_core, "bsnes");
    assert_eq!(m.rom_hash, "abc");
    assert_eq!(m.sync_method, "rollback");
    assert_eq!(m.frame_delay, 3);
}

#[test]
fn host_manifest_falls_back_to_stem_and_default_core() {
    let m = GameManifest::for_host(None, "Super Game (USA)", None, "h".to_string(), 2);
    assert_eq!(m.game_title, "Super Game (USA)");
    assert_eq!(m.emulator_core, DEFAULT_CORE);
}

#[test]
fn rom_check_compares_hashes_exactly() {
    let m = GameManifest::for_host(None, "g", None, compute_rom_hash(b"rom"), 2);
    assert!(m.matches_rom(&compute_rom_hash(b"rom")));
    assert!(!m.matches_rom(&compute_rom_hash(b"other rom")));
    assert!(!m.matches_rom(&compute_rom_hash(b"rom").to_uppercase()));
}

#[test]
fn rom_check_refuses_a_mismatch() {
    let m = GameManifest::for_host(None, "g", None, compute_rom_hash(b"rom"), 2);
    assert_eq!(m.rom_check(&compute_rom_hash(b"rom")), Ok(()));
    assert_eq!(m.rom_check(&compute_rom_hash(b"other")), Err("ROM hash mismatch".to_string()));
}
