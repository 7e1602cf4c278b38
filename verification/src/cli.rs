//! The command line's shape and the decisions of its `host` and `join`
//! flows; performing them (files, HTTP, UDP, processes) is left to the
//! program around this library.

use vstd::prelude::*;
use crate::text::owned;
use std::path::PathBuf;
use crate::session_link::{SessionLink, LinkView, opt_view};

verus! {

/// A file-system path, carried through as the caller gave it.
#[verifier::external_type_specification]
#[verifier::external_body]
pub struct ExPathBuf(std::path::PathBuf);

/// Parsed command-line arguments.
#[derive(Debug)]
pub struct Cli {
    pub command: Commands,
}

/// The subcommands.
#[allow(inconsistent_fields)]
#[derive(Debug)]
pub enum Commands {
    /// Host a new session.
    Host {
        rom: PathBuf,
        title: Option<String>,
        core: Option<String>,
        frame_delay: i32,
        session_dir: PathBuf,
        session_id: Option<String>,
        signal_url: Option<String>,
        state_file: Option<PathBuf>,
        launch_emulator: bool,
        emulator_bin: String,
        dry_run: bool,
        nat_server: Option<String>,
    },
    /// Join an existing session from a `braid://` link.
    Join {
        link: String,
        rom: Option<PathBuf>,
        launch_emulator: bool,
        emulator_bin: String,
        connect_address: Option<String>,
        auto_state: bool,
        state_output: Option<PathBuf>,
        dry_run: bool,
        nat_server: Option<String>,
    },
    /// Run the UDP rendezvous service.
    NatServer { bind: String },
    /// Push or pull save-state blobs.
    State { cmd: StateCommands },
}

/// The save-state subcommands.
#[derive(Debug)]
pub enum StateCommands {
    /// Upload a save-state file for a session.
    Push { session_id: String, signal_url: String, file: PathBuf },
    /// Download a session's save-state blob.
    Pull { session_id: String, signal_url: String },
}

/// Whether `c` is a lowercase hexadecimal digit.
pub open spec fn lower_hex_digit(c: char) -> bool {
    ('0' <= c && c <= '9') || ('a' <= c && c <= 'f')
}

/// The positions of the hyphens in a hyphenated UUID.
pub open spec fn uuid_hyphen_at(i: int) -> bool {
    i == 8 || i == 13 || i == 18 || i == 23
}

/// The shape of every rendered version-4 UUID: 36 characters, hyphens at
/// 8, 13, 18 and 23, lowercase hex digits elsewhere, version digit `4` at 14
/// and variant digit `8`, `9`, `a` or `b` at 19.
pub open spec fn v4_uuid_text(t: Seq<char>) -> bool {
    &&& t.len() == 36
    &&& forall|i: int| 0 <= i < 36 ==> (if uuid_hyphen_at(i) { #[trigger] t[i] == '-' } else { lower_hex_digit(t[i]) })
    &&& t[14] == '4'
    &&& (t[19] == '8' || t[19] == '9' || t[19] == 'a' || t[19] == 'b')
}

/// Calls `uuid::Uuid::new_v4()` and renders it with `to_string`.
///
/// Trusted: the id's random digits are not described; what holds of every
/// outcome is stated: `Display` writes the lowercase hyphenated form, and
/// `new_v4` sets the version nibble to 4 and the variant bits to `10`.
#[verifier::external_body]
fn fresh_uuid_text() -> (r: String)
    ensures
        v4_uuid_text(r@),
{
    uuid::Uuid::new_v4().to_string()
}

/// The first twelve characters of a rendered UUID, used as a session id.
pub fn short_session_id(uuid_text: &str) -> (r: String)
    requires
        uuid_text@.len() >= 12,
    ensures
        r@ == uuid_text@.subrange(0, 12),
{
    owned(uuid_text.substring_char(0, 12))
}

/// The session id to host under: the one given, or twelve characters of a
/// fresh random UUID.
pub fn choose_session_id(given: Option<String>) -> (r: String)
    ensures
        given matches Some(g) ==> r@ == g@,
        given is None ==> r@.len() == 12,
        given is None ==> forall|i: int| 0 <= i < 12 ==> (if i == 8 { #[trigger] r@[i] == '-' } else { lower_hex_digit(r@[i]) }),
        given is None ==> exists|t: Seq<char>| v4_uuid_text(t) && r@ == t.subrange(0, 12),
{
    match given {
        Some(g) => g,
        None => {
            let u = fresh_uuid_text();
            let id = short_session_id(u.as_str());
            assert forall|i: int| 0 <= i < 12 implies (if i == 8 { #[trigger] id@[i] == '-' } else { lower_hex_digit(id@[i]) }) by {
                assert(id@[i] == u@[i]);
                assert(uuid_hyphen_at(i) == (i == 8));
            }
            id
        },
    }
}

/// The file name a hosted session's manifest is stored under.
pub fn manifest_file_name(session_id: &str) -> (r: String)
    ensures
        r@ == session_id@ + ".json"@,
{
    owned(session_id).concat(".json")
}

/// The link a host shares: through the signaling server when the manifest
/// was published there, else through the local manifest file.
pub open spec fn host_link_view(session_id: Seq<char>, published_to: Option<Seq<char>>, manifest_path: Seq<char>) -> LinkView {
    (session_id, published_to, if published_to is Some { None } else { Some(manifest_path) })
}

/// Builds the link a host shares.
pub fn host_link(session_id: &str, published_to: Option<String>, manifest_path: &str) -> (r: SessionLink)
    ensures
        r@ == host_link_view(session_id@, opt_view(published_to), manifest_path@),
{
    let manifest = if published_to.is_some() {
        None
    } else {
        Some(owned(manifest_path))
    };
    SessionLink { session_id: owned(session_id), signal_url: published_to, manifest_path: manifest }
}

/// What happened in the last step of publishing a hosted session.
#[derive(Debug, Clone, Copy, PartialEq, Eq)]
pub enum PublishEvent {
    /// Publishing begins.
    Start,
    /// The manifest was posted; whether the server accepted it.
    ManifestPosted(bool),
    /// The save-state file was read; whether that worked.
    StateFileRead(bool),
    /// The save-state blob was posted; whether the server accepted it.
    StatePosted(bool),
}

/// What the host flow does next while publishing a session. Failures only
/// lead to a warning and an earlier finish.
#[derive(Debug, Clone)]
pub enum PublishAction {
    /// Post the manifest to this signaling server.
    PostManifest(String),
    /// Read the save-state file that was given.
    ReadStateFile,
    /// Post the save-state blob to this signaling server.
    PostState(String),
    /// Publishing is over; the signaling server the link should name, if the
    /// manifest was accepted there.
    Finish(Option<String>),
}

/// The next publishing step, by the views of the inputs.
pub enum PublishActionView {
    PostManifest(Seq<char>),
    ReadStateFile,
    PostState(Seq<char>),
    Finish(Option<Seq<char>>),
}

impl View for PublishAction {
    type V = PublishActionView;

    open spec fn view(&self) -> PublishActionView {
        match self {
            PublishAction::PostManifest(u) => PublishActionView::PostManifest(u@),
            PublishAction::ReadStateFile => PublishActionView::ReadStateFile,
            PublishAction::PostState(u) => PublishActionView::PostState(u@),
            PublishAction::Finish(o) => PublishActionView::Finish(opt_view(*o)),
        }
    }
}

/// The publishing steps of the host flow: without a signaling server there
/// is nothing to publish; otherwise the manifest is posted first, and only
/// once the server accepted it is the save-state file (if any) read and
/// posted. A refused manifest finishes with no server to name; any later
/// failure still finishes naming the server.
pub open spec fn publish_action(
    signal_url: Option<Seq<char>>,
    state_file_given: bool,
    event: PublishEvent,
) -> PublishActionView {
    match signal_url {
        None => PublishActionView::Finish(None),
        Some(u) => match event {
            PublishEvent::Start => PublishActionView::PostManifest(u),
            PublishEvent::ManifestPosted(false) => PublishActionView::Finish(None),
            PublishEvent::ManifestPosted(true) => if state_file_given {
                PublishActionView::ReadStateFile
            } else {
                PublishActionView::Finish(Some(u))
            },
            PublishEvent::StateFileRead(true) => PublishActionView::PostState(u),
            PublishEvent::StateFileRead(false) => PublishActionView::Finish(Some(u)),
            PublishEvent::StatePosted(_) => PublishActionView::Finish(Some(u)),
        },
    }
}

/// Decides the host flow's next publishing step.
pub fn publish_step(signal_url: &Option<String>, state_file_given: bool, event: PublishEvent) -> (r: PublishAction)
    ensures
        r@ == publish_action(opt_view(*signal_url), state_file_given, event),
        signal_url is Some && event == PublishEvent::Start ==> (r matches PublishAction::PostManifest(x) && x@ == signal_url.unwrap()@),
{
    match signal_url {
        None => PublishAction::Finish(None),
        Some(u) => match event {
            PublishEvent::Start => PublishAction::PostManifest(u.clone()),
            PublishEvent::ManifestPosted(accepted) => {
                if !accepted {
                    PublishAction::Finish(None)
                } else {
                    if state_file_given {
                        PublishAction::ReadStateFile
                    } else {
                        PublishAction::Finish(Some(u.clone()))
                    }
                }
            },
            PublishEvent::StateFileRead(read) => {
                if read {
                    PublishAction::PostState(u.clone())
                } else {
                    PublishAction::Finish(Some(u.clone()))
                }
            },
            PublishEvent::StatePosted(_) => PublishAction::Finish(Some(u.clone())),
        },
    }
}

/// Publishing never goes past a refused manifest: the state file is read
/// only right after the manifest was accepted, the blob is posted only right
/// after the file was read, and the link names a server only after the
/// manifest was accepted there.
pub proof fn lemma_state_only_after_manifest(
    signal_url: Option<Seq<char>>,
    state_file_given: bool,
    event: PublishEvent,
)
    ensures
        publish_action(signal_url, state_file_given, event) is ReadStateFile ==> event == PublishEvent::ManifestPosted(true),
        publish_action(signal_url, state_file_given, event) is PostState ==> event == PublishEvent::StateFileRead(true),
        event == PublishEvent::ManifestPosted(false) ==> publish_action(signal_url, state_file_given, event) == PublishActionView::Finish(None),
        event == PublishEvent::Start ==> !(publish_action(signal_url, state_file_given, event) is PostState),
{
}

/// With a signaling server, publishing always begins by posting the
/// manifest there, whether or not a state file was given; and the link names
/// the server only once the manifest was accepted (after the acceptance, the
/// state file's read or the state post), never at the start or after a
/// refusal. Without a server nothing is posted and the link names none.
pub proof fn lemma_manifest_posted_first(u: Seq<char>, state_file_given: bool, event: PublishEvent)
    ensures
        publish_action(Some(u), state_file_given, PublishEvent::Start) == PublishActionView::PostManifest(u),
        publish_action(Some(u), state_file_given, event) == PublishActionView::Finish(Some(u)) ==> match event {
            PublishEvent::ManifestPosted(accepted) => accepted && !state_file_given,
            PublishEvent::StateFileRead(read) => !read,
            PublishEvent::StatePosted(_) => true,
            PublishEvent::Start => false,
        },
        publish_action(None, state_file_given, event) == PublishActionView::Finish(None),
{
}

/// Where a joining peer reads the manifest from.
#[derive(Debug, Clone)]
pub enum ManifestSource {
    /// Fetch it from this signaling server.
    Signal(String),
    /// Read it from this local file.
    File(String),
}

/// The manifest source a link names: its signaling server first, else its
/// manifest path, else the message the join fails with.
pub fn manifest_source(link: &SessionLink) -> (r: Result<ManifestSource, String>)
    ensures
        match link@.1 {
            Some(s) => r matches Ok(ManifestSource::Signal(u)) && u@ == s,
            None => match link@.2 {
                Some(m) => r matches Ok(ManifestSource::File(p)) && p@ == m,
                None => r matches Err(e) && e@ == "invalid SessionLink: no signaling URL or manifest path"@,
            },
        },
{
    match &link.signal_url {
        Some(s) => Ok(ManifestSource::Signal(s.clone())),
        None => match &link.manifest_path {
            Some(m) => Ok(ManifestSource::File(m.clone())),
            None => Err(owned("invalid SessionLink: no signaling URL or manifest path")),
        },
    }
}

/// Where a fetched save-state is written.
#[derive(Debug, Clone)]
pub enum OutputPath<P> {
    /// The path the user gave.
    Given(P),
    /// A file of this name in the working directory.
    Named(String),
}

/// Where a fetched save-state is written: the path given, else
/// `<session_id>.state`.
pub fn state_output_path<P>(given: Option<P>, session_id: &str) -> (r: OutputPath<P>)
    ensures
        match given {
            Some(g) => r == OutputPath::Given(g),
            None => r matches OutputPath::Named(n) && n@ == session_id@ + ".state"@,
        },
{
    match given {
        Some(g) => OutputPath::Given(g),
        None => OutputPath::Named(owned(session_id).concat(".state")),
    }
}

/// Whether a joining peer asks the rendezvous service for the host's
/// address: only when no address was given and a service was named.
pub fn should_negotiate(connect_address: &Option<String>, nat_server: &Option<String>) -> (r: bool)
    ensures
        r == (connect_address is None && nat_server is Some),
{
    connect_address.is_none() && nat_server.is_some()
}

/// What a peer launch needs: a verified ROM path and a host address, in
/// that order of checking.
pub fn peer_launch_inputs<R>(rom_verified: Option<R>, connect: Option<String>) -> (r: Result<(R, String), String>)
    ensures
        match rom_verified {
            None => r matches Err(e) && e@ == "cannot launch emulator without verified --rom"@,
            Some(rom) => match connect {
                None => r matches Err(e) && e@ == "--connect-address or --nat-server is required when launching the peer emulator"@,
                Some(addr) => r matches Ok(p) && p.0 == rom && p.1@ == addr@,
            },
        },
{
    let rom = match rom_verified {
        Some(r) => r,
        None => {
            return Err(owned("cannot launch emulator without verified --rom"));
        },
    };
    let addr = match connect {
        Some(a) => a,
        None => {
            return Err(owned("--connect-address or --nat-server is required when launching the peer emulator"));
        },
    };
    Ok((rom, addr))
}

} // verus!
