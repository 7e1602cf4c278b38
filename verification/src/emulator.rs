//! Building the RetroArch-style command line for the host and peer roles.

use vstd::prelude::*;
use crate::text::{owned, str_eq, texts, join_with, joined};

verus! {

/// The libretro core used when a manifest names none.
pub const DEFAULT_CORE: &'static str = "snes9x_libretro";

/// The command line, as its words, that launches the emulator for `role`,
/// or the error message the launch is refused with.
///
/// A host runs `<bin> -L <core> --host [extra..] <rom>`; a peer runs
/// `<bin> -L <core> --connect <addr> [extra..] <rom>` and needs an address.
pub open spec fn retroarch_command(
    bin: Seq<char>,
    core: Seq<char>,
    rom: Seq<char>,
    role: Seq<char>,
    connect_address: Option<Seq<char>>,
    extra: Seq<Seq<char>>,
) -> Result<Seq<Seq<char>>, Seq<char>> {
    if role == "host"@ {
        Ok(seq![bin, "-L"@, core, "--host"@] + extra + seq![rom])
    } else if role == "peer"@ {
        match connect_address {
            Some(addr) => Ok(seq![bin, "-L"@, core, "--connect"@, addr] + extra + seq![rom]),
            None => Err("connect_address is required for peer role"@),
        }
    } else {
        Err("unknown role: "@ + role)
    }
}

/// The character view of an optional string slice.
pub open spec fn opt_text(o: Option<&str>) -> Option<Seq<char>> {
    match o {
        Some(s) => Some(s@),
        None => None,
    }
}

/// The character views of optional extra arguments (none counts as empty).
pub open spec fn extra_texts(o: Option<&[String]>) -> Seq<Seq<char>> {
    match o {
        Some(e) => texts(e@),
        None => Seq::empty(),
    }
}

/// The character view of a command-building result.
pub open spec fn command_view(r: Result<Vec<String>, String>) -> Result<Seq<Seq<char>>, Seq<char>> {
    match r {
        Ok(v) => Ok(texts(v@)),
        Err(e) => Err(e@),
    }
}

fn push_text(cmd: &mut Vec<String>, s: &str)
    ensures
        texts(final(cmd)@) == texts(old(cmd)@).push(s@),
{
    let ghost before = texts(cmd@);
    cmd.push(owned(s));
    assert(texts(cmd@) =~= before.push(s@));
}

/// Builds the emulator command line for the `host` or `peer` role; the ROM
/// path is the one the caller displays (`Path::display`).
pub fn build_retroarch_command(
    emulator_bin: &str,
    core: &str,
    rom_path: &str,
    role: &str,
    connect_address: Option<&str>,
    extra_args: Option<&[String]>,
) -> (r: Result<Vec<String>, String>)
    ensures
        command_view(r) == retroarch_command(
            emulator_bin@,
            core@,
            rom_path@,
            role@,
            opt_text(connect_address),
            extra_texts(extra_args),
        ),
{
    let mut cmd: Vec<String> = Vec::new();
    push_text(&mut cmd, emulator_bin);
    push_text(&mut cmd, "-L");
    push_text(&mut cmd, core);
    if str_eq(role, "host") {
        push_text(&mut cmd, "--host");
    } else if str_eq(role, "peer") {
        match connect_address {
            Some(addr) => {
                push_text(&mut cmd, "--connect");
                push_text(&mut cmd, addr);
            },
            None => {
                return Err(owned("connect_address is required for peer role"));
            },
        }
    } else {
        let msg = owned("unknown role: ").concat(role);
        return Err(msg);
    }
    let ghost head = texts(cmd@);
    match extra_args {
        Some(extra) => {
            let mut i: usize = 0;
            while i < extra.len()
                invariant
                    i <= extra@.len(),
                    texts(cmd@) == head + texts(extra@.subrange(0, i as int)),
                decreases extra@.len() - i,
            {
                let ghost before = texts(cmd@);
                cmd.push(extra[i].clone());
                assert(texts(extra@.subrange(0, i + 1)) =~= texts(extra@.subrange(0, i as int)).push(extra@[i as int]@));
                assert(texts(cmd@) =~= before.push(extra@[i as int]@));
                i = i + 1;
            }
            assert(extra@.subrange(0, extra@.len() as int) =~= extra@);
        },
        None => {
            assert(head + Seq::<Seq<char>>::empty() =~= head);
        },
    }
    push_text(&mut cmd, rom_path);
    proof {
        let ex = extra_texts(extra_args);
        if role@ == "host"@ {
            assert(texts(cmd@) =~= seq![emulator_bin@, "-L"@, core@, "--host"@] + ex + seq![rom_path@]);
        } else {
            assert(texts(cmd@) =~= seq![emulator_bin@, "-L"@, core@, "--connect"@, connect_address.unwrap()@] + ex + seq![rom_path@]);
        }
    }
    Ok(cmd)
}

/// The command line as printed before launching: its words joined by spaces.
pub fn command_line_text(cmd: &[String]) -> (r: String)
    ensures
        r@ == joined(texts(cmd@), ' '),
{
    join_with(cmd, ' ')
}

} // verus!
