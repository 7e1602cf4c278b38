//! The decisions of the desktop dashboard: the form it keeps, the command
//! lines its buttons run, and what it reads out of links and URLs.

use vstd::prelude::*;
use crate::text::{owned, push_char, texts, join_with, joined};
use crate::session_link::{parse_url, url_components, find_first_nonempty, first_nonempty_value, opt_view};

verus! {

/// Whether `c` has the Unicode `White_Space` property (`char::is_whitespace`).
pub open spec fn white_space(c: char) -> bool {
    let v = c as u32;
    (9 <= v && v <= 13) || v == 32 || v == 0x85 || v == 0xA0 || v == 0x1680 || (0x2000 <= v && v
        <= 0x200A) || v == 0x2028 || v == 0x2029 || v == 0x202F || v == 0x205F || v == 0x3000
}

/// `char::is_whitespace`.
pub fn is_whitespace(c: char) -> (r: bool)
    ensures
        r == white_space(c),
{
    let v = c as u32;
    (9 <= v && v <= 13) || v == 32 || v == 0x85 || v == 0xA0 || v == 0x1680 || (0x2000 <= v && v
        <= 0x200A) || v == 0x2028 || v == 0x2029 || v == 0x202F || v == 0x205F || v == 0x3000
}

/// Whether `s` is empty once surrounding whitespace is trimmed.
pub open spec fn blank(s: Seq<char>) -> bool {
    forall|i: int| 0 <= i < s.len() ==> white_space(#[trigger] s[i])
}

/// `s.trim().is_empty()`.
pub fn is_blank(s: &str) -> (r: bool)
    ensures
        r == blank(s@),
{
    let n = s.unicode_len();
    let mut i: usize = 0;
    while i < n
        invariant
            i <= n,
            n == s@.len(),
            forall|j: int| 0 <= j < i ==> white_space(#[trigger] s@[j]),
        decreases n - i,
    {
        if !is_whitespace(s.get_char(i)) {
            return false;
        }
        i = i + 1;
    }
    true
}

/// The signaling URL named by a link: the first non-empty `signal` query
/// value, if the link is not blank and parses as a URL.
pub open spec fn link_signal_url(link: Seq<char>) -> Option<Seq<char>> {
    if blank(link) {
        None
    } else {
        match url_components(link) {
            None => None,
            Some(c) => first_nonempty_value(c.4, "signal"@),
        }
    }
}

/// Reads the signaling URL out of a `braid://` link, for pinging it.
pub fn extract_signal_url_from_link(link: &str) -> (r: Option<String>)
    ensures
        opt_view(r) == link_signal_url(link@),
{
    if is_blank(link) {
        return None;
    }
    match parse_url(link) {
        Ok(parts) => find_first_nonempty(&parts.query_pairs, "signal"),
        Err(_) => None,
    }
}

/// The decimal digits of `n`, without leading zeros.
pub open spec fn decimal(n: nat) -> Seq<char>
    decreases n,
{
    if n < 10 {
        seq![(48 + n) as char]
    } else {
        decimal(n / 10).push((48 + n % 10) as char)
    }
}

/// `n` written in decimal (`u16::to_string`).
pub fn u16_decimal(n: u16) -> (r: String)
    ensures
        r@ == decimal(n as nat),
    decreases n,
{
    if n < 10 {
        let mut s = String::new();
        push_char(&mut s, ((48 + n) as u8) as char);
        assert(s@ =~= seq![(48 + n) as char]);
        s
    } else {
        let mut s = u16_decimal(n / 10);
        push_char(&mut s, ((48 + n % 10) as u8) as char);
        s
    }
}

/// The `host:port` a latency probe connects to: the URL's host and its port
/// or its scheme's well-known port.
pub open spec fn probe_target(url: Seq<char>) -> Option<Seq<char>> {
    if blank(url) {
        None
    } else {
        match url_components(url) {
            None => None,
            Some(c) => match (c.1, c.2) {
                (Some(h), Some(p)) => Some(h + seq![':'] + decimal(p as nat)),
                _ => None,
            },
        }
    }
}

/// Computes where a latency probe connects for `url`.
pub fn latency_target(url: &str) -> (r: Option<String>)
    ensures
        opt_view(r) == probe_target(url@),
{
    if is_blank(url) {
        return None;
    }
    match parse_url(url) {
        Ok(parts) => match (parts.host, parts.port) {
            (Some(h), Some(p)) => {
                let mut t = h;
                push_char(&mut t, ':');
                let digits = u16_decimal(p);
                t.append(digits.as_str());
                Some(t)
            },
            _ => None,
        },
        Err(_) => None,
    }
}

/// The dashboard's form and log.
#[derive(Debug, Clone)]
pub struct DashboardForm {
    pub host_rom: String,
    pub host_signal_url: String,
    pub host_nat_server: String,
    pub host_launch: bool,
    pub host_dry_run: bool,
    pub host_status: String,
    pub join_link: String,
    pub join_rom: String,
    pub join_nat_server: String,
    pub join_launch: bool,
    pub join_dry_run: bool,
    pub join_status: String,
    pub log: String,
}

/// `flag` followed by `value` when `value` is non-empty, else nothing.
pub open spec fn opt_flag(flag: Seq<char>, value: Seq<char>) -> Seq<Seq<char>> {
    if value.len() > 0 {
        seq![flag, value]
    } else {
        Seq::empty()
    }
}

/// `flag` when `on`, else nothing.
pub open spec fn switch(flag: Seq<char>, on: bool) -> Seq<Seq<char>> {
    if on {
        seq![flag]
    } else {
        Seq::empty()
    }
}

/// A value alone when non-empty, else nothing.
pub open spec fn opt_word(value: Seq<char>) -> Seq<Seq<char>> {
    if value.len() > 0 {
        seq![value]
    } else {
        Seq::empty()
    }
}

/// The arguments of the "Host session" button.
pub open spec fn host_args_view(rom: Seq<char>, signal: Seq<char>, nat_server: Seq<char>, launch: bool, dry_run: bool) -> Seq<Seq<char>> {
    seq!["host"@] + opt_word(rom) + opt_flag("--signal-url"@, signal) + opt_flag("--nat-server"@, nat_server)
        + switch("--launch-emulator"@, launch) + switch("--dry-run"@, dry_run)
}

/// The arguments of the "Join session" button.
pub open spec fn join_args_view(link: Seq<char>, rom: Seq<char>, nat_server: Seq<char>, launch: bool, dry_run: bool) -> Seq<Seq<char>> {
    seq!["join"@] + opt_word(link) + opt_flag("--rom"@, rom) + opt_flag("--nat-server"@, nat_server)
        + switch("--launch-emulator"@, launch) + switch("--dry-run"@, dry_run)
}

/// 1 when `b`, else 0.
pub open spec fn one_if(b: bool) -> int {
    if b { 1 } else { 0 }
}

/// The "Join session" command line, word by word: `join`, then the link if
/// one is entered, then `--rom <rom>` if a ROM is entered, then
/// `--nat-server <server>` if a server is entered, then the launch and
/// dry-run switches when on; nothing else.
pub proof fn lemma_join_args_layout(link: Seq<char>, rom: Seq<char>, nat_server: Seq<char>, launch: bool, dry_run: bool)
    ensures
        ({
            let v = join_args_view(link, rom, nat_server, launch, dry_run);
            let a = one_if(link.len() > 0);
            let b = 2 * one_if(rom.len() > 0);
            let c = 2 * one_if(nat_server.len() > 0);
            let d = one_if(launch);
            &&& v.len() == 1 + a + b + c + d + one_if(dry_run)
            &&& v[0] == "join"@
            &&& link.len() > 0 ==> v[1] == link
            &&& rom.len() > 0 ==> v[1 + a] == "--rom"@ && v[2 + a] == rom
            &&& nat_server.len() > 0 ==> v[1 + a + b] == "--nat-server"@ && v[2 + a + b] == nat_server
            &&& launch ==> v[1 + a + b + c] == "--launch-emulator"@
            &&& dry_run ==> v[1 + a + b + c + d] == "--dry-run"@
        }),
{
    let v = join_args_view(link, rom, nat_server, launch, dry_run);
    let p0 = seq!["join"@] + opt_word(link);
    let p1 = p0 + opt_flag("--rom"@, rom);
    let p2 = p1 + opt_flag("--nat-server"@, nat_server);
    let p3 = p2 + switch("--launch-emulator"@, launch);
    assert(v == p3 + switch("--dry-run"@, dry_run));
    assert(p0[0] == "join"@);
    assert(p1[0] == "join"@);
    assert(p2[0] == "join"@);
    assert(p3[0] == "join"@);
    if link.len() > 0 {
        assert(p0[1] == link);
        assert(p1[1] == link && p2[1] == link && p3[1] == link);
    }
    let a = one_if(link.len() > 0);
    let b = 2 * one_if(rom.len() > 0);
    let c = 2 * one_if(nat_server.len() > 0);
    if rom.len() > 0 {
        assert(p1[1 + a] == "--rom"@ && p1[2 + a] == rom);
        assert(p2[1 + a] == "--rom"@ && p2[2 + a] == rom);
        assert(p3[1 + a] == "--rom"@ && p3[2 + a] == rom);
    }
    if nat_server.len() > 0 {
        assert(p2[1 + a + b] == "--nat-server"@ && p2[2 + a + b] == nat_server);
        assert(p3[1 + a + b] == "--nat-server"@ && p3[2 + a + b] == nat_server);
    }
    if launch {
        assert(p3[1 + a + b + c] == "--launch-emulator"@);
    }
}

/// The "Host session" command line, word by word: `host`, then the ROM if
/// one is entered, then `--signal-url <url>` if a URL is entered, then
/// `--nat-server <server>` if a server is entered, then the launch and
/// dry-run switches when on; nothing else.
pub proof fn lemma_host_args_layout(rom: Seq<char>, signal: Seq<char>, nat_server: Seq<char>, launch: bool, dry_run: bool)
    ensures
        ({
            let v = host_args_view(rom, signal, nat_server, launch, dry_run);
            let a = one_if(rom.len() > 0);
            let b = 2 * one_if(signal.len() > 0);
            let c = 2 * one_if(nat_server.len() > 0);
            let d = one_if(launch);
            &&& v.len() == 1 + a + b + c + d + one_if(dry_run)
            &&& v[0] == "host"@
            &&& rom.len() > 0 ==> v[1] == rom
            &&& signal.len() > 0 ==> v[1 + a] == "--signal-url"@ && v[2 + a] == signal
            &&& nat_server.len() > 0 ==> v[1 + a + b] == "--nat-server"@ && v[2 + a + b] == nat_server
            &&& launch ==> v[1 + a + b + c] == "--launch-emulator"@
            &&& dry_run ==> v[1 + a + b + c + d] == "--dry-run"@
        }),
{
    let v = host_args_view(rom, signal, nat_server, launch, dry_run);
    let p0 = seq!["host"@] + opt_word(rom);
    let p1 = p0 + opt_flag("--signal-url"@, signal);
    let p2 = p1 + opt_flag("--nat-server"@, nat_server);
    let p3 = p2 + switch("--launch-emulator"@, launch);
    assert(v == p3 + switch("--dry-run"@, dry_run));
    assert(p0[0] == "host"@);
    assert(p1[0] == "host"@);
    assert(p2[0] == "host"@);
    assert(p3[0] == "host"@);
    if rom.len() > 0 {
        assert(p0[1] == rom);
        assert(p1[1] == rom && p2[1] == rom && p3[1] == rom);
    }
    let a = one_if(rom.len() > 0);
    let b = 2 * one_if(signal.len() > 0);
    let c = 2 * one_if(nat_server.len() > 0);
    if signal.len() > 0 {
        assert(p1[1 + a] == "--signal-url"@ && p1[2 + a] == signal);
        assert(p2[1 + a] == "--signal-url"@ && p2[2 + a] == signal);
        assert(p3[1 + a] == "--signal-url"@ && p3[2 + a] == signal);
    }
    if nat_server.len() > 0 {
        assert(p2[1 + a + b] == "--nat-server"@ && p2[2 + a + b] == nat_server);
        assert(p3[1 + a + b] == "--nat-server"@ && p3[2 + a + b] == nat_server);
    }
    if launch {
        assert(p3[1 + a + b + c] == "--launch-emulator"@);
    }
}

fn push_word(args: &mut Vec<String>, w: &str)
    ensures
        texts(final(args)@) == texts(old(args)@).push(w@),
{
    let ghost before = texts(args@);
    args.push(owned(w));
    assert(texts(args@) =~= before.push(w@));
}

fn push_opt_flag(args: &mut Vec<String>, flag: &str, value: &str)
    ensures
        texts(final(args)@) == texts(old(args)@) + opt_flag(flag@, value@),
{
    let ghost before = texts(args@);
    if !value.is_empty() {
        push_word(args, flag);
        push_word(args, value);
        assert(texts(args@) =~= before + seq![flag@, value@]);
    } else {
        assert(texts(args@) =~= before + Seq::<Seq<char>>::empty());
    }
}

fn push_switch(args: &mut Vec<String>, flag: &str, on: bool)
    ensures
        texts(final(args)@) == texts(old(args)@) + switch(flag@, on),
{
    let ghost before = texts(args@);
    if on {
        push_word(args, flag);
        assert(texts(args@) =~= before + seq![flag@]);
    } else {
        assert(texts(args@) =~= before + Seq::<Seq<char>>::empty());
    }
}

fn push_opt_word(args: &mut Vec<String>, value: &str)
    ensures
        texts(final(args)@) == texts(old(args)@) + opt_word(value@),
{
    let ghost before = texts(args@);
    if !value.is_empty() {
        push_word(args, value);
        assert(texts(args@) =~= before + seq![value@]);
    } else {
        assert(texts(args@) =~= before + Seq::<Seq<char>>::empty());
    }
}

/// The first line of the log when a command starts: `$ braid-rs <args>`.
pub open spec fn echo_line(args: Seq<Seq<char>>) -> Seq<char> {
    "$ braid-rs "@ + joined(args, ' ') + seq!['\n']
}

/// The host fields other than the ROM, and the join fields other than the
/// ROM, are the same in `a` and `b`.
pub open spec fn same_settings(a: DashboardForm, b: DashboardForm) -> bool {
    &&& a.host_signal_url@ == b.host_signal_url@
    &&& a.host_nat_server@ == b.host_nat_server@
    &&& a.host_launch == b.host_launch
    &&& a.host_dry_run == b.host_dry_run
    &&& a.host_status@ == b.host_status@
    &&& a.join_link@ == b.join_link@
    &&& a.join_nat_server@ == b.join_nat_server@
    &&& a.join_launch == b.join_launch
    &&& a.join_dry_run == b.join_dry_run
    &&& a.join_status@ == b.join_status@
}

/// Everything but the two statuses is the same in `a` and `b`.
pub open spec fn same_but_statuses(a: DashboardForm, b: DashboardForm) -> bool {
    &&& a.host_rom@ == b.host_rom@
    &&& a.host_signal_url@ == b.host_signal_url@
    &&& a.host_nat_server@ == b.host_nat_server@
    &&& a.host_launch == b.host_launch
    &&& a.host_dry_run == b.host_dry_run
    &&& a.join_link@ == b.join_link@
    &&& a.join_rom@ == b.join_rom@
    &&& a.join_nat_server@ == b.join_nat_server@
    &&& a.join_launch == b.join_launch
    &&& a.join_dry_run == b.join_dry_run
    &&& a.log@ == b.log@
}

/// The (host ROM, join ROM) fields after one file is dropped: it fills the
/// host ROM if that is empty, else the join ROM if that is empty, else
/// nothing.
pub open spec fn drop_step(host: Seq<char>, join: Seq<char>, path: Seq<char>) -> (Seq<char>, Seq<char>) {
    if host.len() == 0 {
        (path, join)
    } else if join.len() == 0 {
        (host, path)
    } else {
        (host, join)
    }
}

/// The (host ROM, join ROM) fields after the files `paths` are dropped in
/// order.
pub open spec fn drops(host: Seq<char>, join: Seq<char>, paths: Seq<Seq<char>>) -> (Seq<char>, Seq<char>)
    decreases paths.len(),
{
    if paths.len() == 0 {
        (host, join)
    } else {
        let (h, j) = drop_step(host, join, paths[0]);
        drops(h, j, paths.drop_first())
    }
}

/// Dropping files with non-empty paths fills the empty ROM fields, host
/// first, from the paths in order; a filled field keeps its value, and paths
/// beyond the empty fields are ignored.
pub proof fn lemma_drops_fill_in_order(host: Seq<char>, join: Seq<char>, paths: Seq<Seq<char>>)
    requires
        forall|i: int| 0 <= i < paths.len() ==> #[trigger] paths[i].len() > 0,
    ensures
        host.len() > 0 ==> drops(host, join, paths).0 == host,
        join.len() > 0 ==> drops(host, join, paths).1 == join,
        host.len() == 0 ==> drops(host, join, paths).0 == (if paths.len() > 0 { paths[0] } else { host }),
        host.len() == 0 && join.len() == 0 ==> drops(host, join, paths).1 == (if paths.len() > 1 { paths[1] } else { join }),
        host.len() > 0 && join.len() == 0 ==> drops(host, join, paths).1 == (if paths.len() > 0 { paths[0] } else { join }),
    decreases paths.len(),
{
    if paths.len() > 0 {
        let rest = paths.drop_first();
        assert forall|i: int| 0 <= i < rest.len() implies #[trigger] rest[i].len() > 0 by {
            assert(rest[i] == paths[i + 1]);
        }
        assert(paths[0].len() > 0);
        let (h, j) = drop_step(host, join, paths[0]);
        lemma_drops_fill_in_order(h, j, rest);
        if host.len() == 0 && join.len() == 0 && paths.len() > 1 {
            assert(rest[0] == paths[1]);
        }
    }
}

/// The log after the lines `lines` are appended in order.
pub open spec fn appended(log: Seq<char>, lines: Seq<Seq<char>>) -> Seq<char>
    decreases lines.len(),
{
    if lines.len() == 0 {
        log
    } else {
        appended(log, lines.drop_last()) + lines.last()
    }
}

/// All of `lines`, one after another.
pub open spec fn all_text(lines: Seq<Seq<char>>) -> Seq<char>
    decreases lines.len(),
{
    if lines.len() == 0 {
        Seq::empty()
    } else {
        all_text(lines.drop_last()) + lines.last()
    }
}

/// Appending lines one by one leaves the old log followed by all of them,
/// in order.
pub proof fn lemma_log_appends_in_order(log: Seq<char>, lines: Seq<Seq<char>>)
    ensures
        appended(log, lines) == log + all_text(lines),
    decreases lines.len(),
{
    if lines.len() == 0 {
        assert(log + Seq::<char>::empty() =~= log);
    } else {
        lemma_log_appends_in_order(log, lines.drop_last());
        assert(log + all_text(lines.drop_last()) + lines.last() =~= log + (all_text(lines.drop_last())
            + lines.last()));
    }
}

impl DashboardForm {
    /// The form as the dashboard opens: empty fields, dry run on, idle.
    pub fn new() -> (r: DashboardForm)
        ensures
            r.host_rom@.len() == 0 && r.host_signal_url@.len() == 0 && r.host_nat_server@.len() == 0,
            !r.host_launch && r.host_dry_run && r.host_status@ == "Idle"@,
            r.join_link@.len() == 0 && r.join_rom@.len() == 0 && r.join_nat_server@.len() == 0,
            !r.join_launch && r.join_dry_run && r.join_status@ == "Idle"@,
            r.log@.len() == 0,
    {
        DashboardForm {
            host_rom: String::new(),
            host_signal_url: String::new(),
            host_nat_server: String::new(),
            host_launch: false,
            host_dry_run: true,
            host_status: owned("Idle"),
            join_link: String::new(),
            join_rom: String::new(),
            join_nat_server: String::new(),
            join_launch: false,
            join_dry_run: true,
            join_status: owned("Idle"),
            log: String::new(),
        }
    }

    /// A dropped file fills the host ROM first, then the join ROM, then
    /// nothing.
    pub fn drop_path(&mut self, path: &str)
        ensures
            old(self).host_rom@.len() == 0 ==> final(self).host_rom@ == path@ && final(self).join_rom@ == old(self).join_rom@,
            old(self).host_rom@.len() > 0 && old(self).join_rom@.len() == 0 ==> final(self).host_rom@ == old(self).host_rom@ && final(self).join_rom@ == path@,
            old(self).host_rom@.len() > 0 && old(self).join_rom@.len() > 0 ==> final(self).host_rom@ == old(self).host_rom@ && final(self).join_rom@ == old(self).join_rom@,
            (final(self).host_rom@, final(self).join_rom@) == drop_step(old(self).host_rom@, old(self).join_rom@, path@),
            same_settings(*old(self), *final(self)),
            final(self).log@ == old(self).log@,
    {
        if self.host_rom.as_str().is_empty() {
            self.host_rom = owned(path);
        } else if self.join_rom.as_str().is_empty() {
            self.join_rom = owned(path);
        }
    }

    /// The command line the "Host session" button runs.
    pub fn host_args(&self) -> (r: Vec<String>)
        ensures
            texts(r@) == host_args_view(
                self.host_rom@,
                self.host_signal_url@,
                self.host_nat_server@,
                self.host_launch,
                self.host_dry_run,
            ),
    {
        let mut args: Vec<String> = Vec::new();
        push_word(&mut args, "host");
        push_opt_word(&mut args, self.host_rom.as_str());
        push_opt_flag(&mut args, "--signal-url", self.host_signal_url.as_str());
        push_opt_flag(&mut args, "--nat-server", self.host_nat_server.as_str());
        push_switch(&mut args, "--launch-emulator", self.host_launch);
        push_switch(&mut args, "--dry-run", self.host_dry_run);
        args
    }

    /// The command line the "Join session" button runs.
    pub fn join_args(&self) -> (r: Vec<String>)
        ensures
            texts(r@) == join_args_view(
                self.join_link@,
                self.join_rom@,
                self.join_nat_server@,
                self.join_launch,
                self.join_dry_run,
            ),
    {
        let mut args: Vec<String> = Vec::new();
        push_word(&mut args, "join");
        push_opt_word(&mut args, self.join_link.as_str());
        push_opt_flag(&mut args, "--rom", self.join_rom.as_str());
        push_opt_flag(&mut args, "--nat-server", self.join_nat_server.as_str());
        push_switch(&mut args, "--launch-emulator", self.join_launch);
        push_switch(&mut args, "--dry-run", self.join_dry_run);
        args
    }

    /// Starts a fresh log for a command: the log is cleared and holds the
    /// echoed command line.
    pub fn start_log(&mut self, args: &[String])
        ensures
            final(self).log@ == echo_line(texts(args@)),
            same_settings(*old(self), *final(self)),
            final(self).host_rom@ == old(self).host_rom@,
            final(self).join_rom@ == old(self).join_rom@,
    {
        let mut line = owned("$ braid-rs ");
        let joined_args = join_with(args, ' ');
        line.append(joined_args.as_str());
        push_char(&mut line, '\n');
        self.log = line;
    }

    /// Records the outcome of the host side's "Ping signaling" button.
    pub fn record_host_ping(&mut self, reachable: bool)
        ensures
            final(self).host_status@ == if reachable { "Signaling reachable"@ } else { "Signaling unreachable"@ },
            final(self).join_status@ == old(self).join_status@,
            same_but_statuses(*old(self), *final(self)),
    {
        self.host_status = if reachable {
            owned("Signaling reachable")
        } else {
            owned("Signaling unreachable")
        };
    }

    /// Records the outcome of the join side's "Ping signaling from link"
    /// button: whether the link named a signaling URL, and whether it answered.
    pub fn record_join_ping(&mut self, link_has_signal: bool, reachable: bool)
        ensures
            final(self).join_status@ == if !link_has_signal {
                "Invalid or missing braid:// link"@
            } else if reachable {
                "Signaling reachable"@
            } else {
                "Signaling unreachable"@
            },
            final(self).host_status@ == old(self).host_status@,
            same_but_statuses(*old(self), *final(self)),
    {
        self.join_status = if !link_has_signal {
            owned("Invalid or missing braid:// link")
        } else if reachable {
            owned("Signaling reachable")
        } else {
            owned("Signaling unreachable")
        };
    }

    /// Appends output of the running command to the log.
    pub fn append_log(&mut self, text: &str)
        ensures
            final(self).log@ == old(self).log@ + text@,
            same_settings(*old(self), *final(self)),
            final(self).host_rom@ == old(self).host_rom@,
            final(self).join_rom@ == old(self).join_rom@,
    {
        self.log.append(text);
    }
}

/// Whether `pat` occurs in `s` starting at `i`.
pub open spec fn occurs_at(s: Seq<char>, pat: Seq<char>, i: int) -> bool {
    0 <= i && i + pat.len() <= s.len() && s.subrange(i, i + pat.len()) == pat
}

/// Whether `pat` occurs anywhere in `s` (`str::contains`).
pub open spec fn occurs_in(s: Seq<char>, pat: Seq<char>) -> bool {
    exists|i: int| #[trigger] occurs_at(s, pat, i)
}

/// `s` with every non-overlapping occurrence of the non-empty `pat`, found
/// from the left, replaced by `to` (`str::replace`).
pub open spec fn replace_all(s: Seq<char>, pat: Seq<char>, to: Seq<char>) -> Seq<char>
    decreases s.len(),
{
    if s.len() == 0 || pat.len() == 0 {
        s
    } else if occurs_at(s, pat, 0) {
        to + replace_all(s.skip(pat.len() as int), pat, to)
    } else {
        seq![s[0]] + replace_all(s.skip(1), pat, to)
    }
}

fn occurs_at_exec(s: &str, n: usize, pat: &str, m: usize, i: usize) -> (r: bool)
    requires
        n == s@.len(),
        m == pat@.len(),
        i <= n,
    ensures
        r == occurs_at(s@, pat@, i as int),
{
    if m > n - i {
        return false;
    }
    owned(s.substring_char(i, i + m)) == owned(pat)
}

/// `s` with `pat` replaced by `to` everywhere, and whether it occurred.
pub fn replace_text(s: &str, pat: &str, to: &str) -> (r: (String, bool))
    requires
        pat@.len() > 0,
    ensures
        r.0@ == replace_all(s@, pat@, to@),
        r.1 == occurs_in(s@, pat@),
{
    let n = s.unicode_len();
    let m = pat.unicode_len();
    let mut out = String::new();
    let mut found = false;
    let mut i: usize = 0;
    assert(s@.skip(0) =~= s@);
    while i < n
        invariant
            i <= n,
            n == s@.len(),
            m == pat@.len(),
            m > 0,
            out@ + replace_all(s@.skip(i as int), pat@, to@) == replace_all(s@, pat@, to@),
            found ==> occurs_in(s@, pat@),
            !found ==> forall|j: int| 0 <= j < i ==> !#[trigger] occurs_at(s@, pat@, j),
        decreases n - i,
    {
        let ghost rest = s@.skip(i as int);
        let hit = occurs_at_exec(s, n, pat, m, i);
        proof {
            assert(rest.len() > 0);
            assert(occurs_at(rest, pat@, 0) == occurs_at(s@, pat@, i as int)) by {
                if i + m <= n {
                    assert(rest.subrange(0, m as int) =~= s@.subrange(i as int, i + m));
                }
            }
        }
        if hit {
            assert(rest.skip(m as int) =~= s@.skip(i + m));
            assert(out@ + to@ + replace_all(s@.skip(i + m), pat@, to@) == replace_all(s@, pat@, to@)) by {
                assert(out@ + (to@ + replace_all(rest.skip(m as int), pat@, to@)) =~= out@ + to@ + replace_all(rest.skip(m as int), pat@, to@));
            }
            out.append(to);
            found = true;
            i = i + m;
        } else {
            let c = s.get_char(i);
            assert(rest.skip(1) =~= s@.skip(i + 1));
            assert(rest[0] == c);
            assert(out@.push(c) + replace_all(s@.skip(i + 1), pat@, to@) == replace_all(s@, pat@, to@)) by {
                assert(out@ + (seq![c] + replace_all(rest.skip(1), pat@, to@)) =~= out@.push(c) + replace_all(rest.skip(1), pat@, to@));
            }
            push_char(&mut out, c);
            i = i + 1;
        }
    }
    proof {
        assert(s@.skip(i as int).len() == 0);
        assert(out@ + replace_all(s@.skip(i as int), pat@, to@) =~= out@);
        if !found && occurs_in(s@, pat@) {
            let j = choose|j: int| #[trigger] occurs_at(s@, pat@, j);
            assert(j < n);
        }
    }
    (out, found)
}

/// The command-line program's file name next to the dashboard's: the
/// dashboard's name with `braid-rs-gui` replaced by `braid-rs`, when it
/// holds that text (`None` leaves the path as it is).
pub fn cli_binary_name(file_name: &str) -> (r: Option<String>)
    ensures
        occurs_in(file_name@, "braid-rs-gui"@) ==> (r matches Some(n) && n@ == replace_all(file_name@, "braid-rs-gui"@, "braid-rs"@)),
        !occurs_in(file_name@, "braid-rs-gui"@) ==> r is None,
{
    proof {
        reveal_strlit("braid-rs-gui");
    }
    let (renamed, hit) = replace_text(file_name, "braid-rs-gui", "braid-rs");
    if hit {
        Some(renamed)
    } else {
        None
    }
}

} // verus!
