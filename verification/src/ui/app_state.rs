use vstd::prelude::*;
use std::collections::HashMap;
use crate::options::{ProgressionOptions, StartInventoryOptions};
use crate::server::protocol::ServerMessage;
use crate::text::{decimal, push_decimal};
use crate::ui::parse::{lemma_parse_decimal, parse_u16, parse_u8, parse_unsigned};

verus! {

broadcast use vstd::std_specs::hash::group_hash_axioms;

/// The page the window shows.
#[derive(Debug, Clone, Copy, PartialEq, Eq)]
pub enum ViewMode {
    Patch,
    Host,
    Configure,
    Log,
}

/// Whether the multiplayer session is open, and on which port with how many clients.
#[derive(Debug, Clone, Copy, PartialEq, Eq)]
pub enum SessionState {
    Closed,
    Open { port: u16, clients: usize },
}

/// Everything the user or the server can tell the window.
#[derive(Debug, Clone)]
pub enum Message {
    ToggleSession,
    ServerMessage(ServerMessage),
    SwitchView(ViewMode),
    RomPathInputChanged(String),
    BrowseRomPath,
    RomPathSelected(Option<String>),
    SaveRomPath,
    ToggleRememberSettings(bool),
    ClearLog,
    SeedInputChanged(String),
    RandomizeSeed,
    GenerateRom,
    LogMessage(String),
    PortInputChanged(String),
    SetStartSword(u8),
    SetStartArrow(u8),
    ToggleStartBow(bool),
    SetStartCandle(u8),
    SetStartRing(u8),
    SetStartMagicShield(u8),
    SetStartBoomerang(u8),
    SetStartBombsInput(String),
    SetMaxBombsInput(String),
    SetStartRupeesInput(String),
    SetStartKeysInput(String),
    SetHeartContainers(u8),
    ToggleStartFood(bool),
    SetStartPotion(u8),
    ToggleStartRecorder(bool),
    ToggleStartMagicRod(bool),
    ToggleStartRaft(bool),
    ToggleStartBook(bool),
    ToggleStartLadder(bool),
    ToggleStartMagicKey(bool),
    ToggleStartBracelet(bool),
    ToggleStartLetter(bool),
    ToggleCompass(usize, bool),
    ToggleMap(usize, bool),
    ToggleTriforce(usize, bool),
    ToggleAllCompass(bool),
    ToggleAllMap(bool),
    ToggleAllTriforce(bool),
    ToggleBossDefeated(usize, bool),
    ToggleAllBossesDefeated(bool),
}

/// What the window asks its host to do outside the state.
#[derive(Debug)]
pub enum Effect {
    /// Nothing to do.
    Nothing,
    /// Let the user pick a ROM file; the pick comes back as `RomPathSelected`.
    BrowseRomPath,
    /// Check that the entered path (to be trimmed) names a file and remember it; the
    /// outcome comes back through `finish_save_rom_path`.
    SaveRomPath(String),
    /// Remember this port.
    SavePort(u16),
    /// Draw a random seed; it comes back through `set_seed`.
    RandomizeSeed,
    /// Build the ROM, its patch and its spoiler log from these settings.
    Generate(GenerateRequest),
}

/// The settings of a ROM to build.
#[derive(Debug)]
pub struct GenerateRequest {
    pub base_rom_path: String,
    pub inventory: StartInventoryOptions,
    pub progression: ProgressionOptions,
}

/// What became of a request to remember a ROM path.
#[derive(Debug, Clone, Copy, PartialEq, Eq)]
pub enum SaveOutcome {
    /// The path names a file and was remembered.
    Saved,
    /// The path names a file, but remembering it failed.
    SaveFailed,
    /// The path does not name a file.
    NotAFile,
}

/// The state of the window.
pub struct State {
    pub session: SessionState,
    pub log: Vec<String>,
    pub items: HashMap<u16, u8>,
    pub view_mode: ViewMode,
    pub base_rom_path: Option<String>,
    pub rom_path_input: String,
    pub remember_settings: bool,
    pub seed_input: String,
    pub port_input: String,
    pub start_sword: u8,
    pub start_arrow: u8,
    pub start_bow: bool,
    pub start_candle: u8,
    pub start_ring: u8,
    pub start_magic_shield: u8,
    pub start_boomerang: u8,
    pub start_bombs_input: String,
    pub max_bombs_input: String,
    pub start_rupees_input: String,
    pub start_keys_input: String,
    pub heart_containers: u8,
    pub start_food: bool,
    pub start_potion: u8,
    pub start_recorder: bool,
    pub start_magic_rod: bool,
    pub start_raft: bool,
    pub start_book: bool,
    pub start_ladder: bool,
    pub start_magic_key: bool,
    pub start_bracelet: bool,
    pub start_letter: bool,
    pub compasses: [bool; 9],
    pub maps: [bool; 9],
    pub triforce_pieces: [bool; 9],
    pub bosses_defeated: [bool; 9],
}

/// The state of the window, with texts as character sequences.
#[verifier::ext_equal]
pub struct StateView {
    pub session: SessionState,
    pub log: Seq<Seq<char>>,
    pub items: Map<u16, u8>,
    pub view_mode: ViewMode,
    pub base_rom_path: Option<Seq<char>>,
    pub rom_path_input: Seq<char>,
    pub remember_settings: bool,
    pub seed_input: Seq<char>,
    pub port_input: Seq<char>,
    pub start_sword: u8,
    pub start_arrow: u8,
    pub start_bow: bool,
    pub start_candle: u8,
    pub start_ring: u8,
    pub start_magic_shield: u8,
    pub start_boomerang: u8,
    pub start_bombs_input: Seq<char>,
    pub max_bombs_input: Seq<char>,
    pub start_rupees_input: Seq<char>,
    pub start_keys_input: Seq<char>,
    pub heart_containers: u8,
    pub start_food: bool,
    pub start_potion: u8,
    pub start_recorder: bool,
    pub start_magic_rod: bool,
    pub start_raft: bool,
    pub start_book: bool,
    pub start_ladder: bool,
    pub start_magic_key: bool,
    pub start_bracelet: bool,
    pub start_letter: bool,
    pub compasses: Seq<bool>,
    pub maps: Seq<bool>,
    pub triforce_pieces: Seq<bool>,
    pub bosses_defeated: Seq<bool>,
}

/// The text of an optional string.
pub open spec fn opt_text(s: Option<String>) -> Option<Seq<char>> {
    match s {
        Some(t) => Some(t@),
        None => None,
    }
}

impl View for State {
    type V = StateView;

    open spec fn view(&self) -> StateView {
        StateView {
            session: self.session,
            log: self.log@.map_values(|s: String| s@),
            items: self.items@,
            view_mode: self.view_mode,
            base_rom_path: opt_text(self.base_rom_path),
            rom_path_input: self.rom_path_input@,
            remember_settings: self.remember_settings,
            seed_input: self.seed_input@,
            port_input: self.port_input@,
            start_sword: self.start_sword,
            start_arrow: self.start_arrow,
            start_bow: self.start_bow,
            start_candle: self.start_candle,
            start_ring: self.start_ring,
            start_magic_shield: self.start_magic_shield,
            start_boomerang: self.start_boomerang,
            start_bombs_input: self.start_bombs_input@,
            max_bombs_input: self.max_bombs_input@,
            start_rupees_input: self.start_rupees_input@,
            start_keys_input: self.start_keys_input@,
            heart_containers: self.heart_containers,
            start_food: self.start_food,
            start_potion: self.start_potion,
            start_recorder: self.start_recorder,
            start_magic_rod: self.start_magic_rod,
            start_raft: self.start_raft,
            start_book: self.start_book,
            start_ladder: self.start_ladder,
            start_magic_key: self.start_magic_key,
            start_bracelet: self.start_bracelet,
            start_letter: self.start_letter,
            compasses: self.compasses@,
            maps: self.maps@,
            triforce_pieces: self.triforce_pieces@,
            bosses_defeated: self.bosses_defeated@,
        }
    }
}

/// The port the default session opens on.
pub const DEFAULT_PORT: u16 = 42069;

/// The value a number input stands for: its parse, or 0 when it does not parse.
pub open spec fn input_u8(s: Seq<char>) -> u8 {
    match parse_unsigned(s, 0xFF) {
        Some(v) => v as u8,
        None => 0,
    }
}

/// The port a port input stands for: its parse, or the default port.
pub open spec fn input_port(s: Seq<char>) -> u16 {
    match parse_unsigned(s, 0xFFFF) {
        Some(v) => v as u16,
        None => DEFAULT_PORT,
    }
}

/// A log kept to its newest entries: the oldest entry goes once the log passes 20 entries.
pub open spec fn capped(log: Seq<Seq<char>>) -> Seq<Seq<char>> {
    if log.len() > 20 {
        log.drop_first()
    } else {
        log
    }
}

/// Store (offset, value) pairs in order, later ones winning.
pub open spec fn store_pairs(m: Map<u16, u8>, u: Seq<(u8, u8)>) -> Map<u16, u8>
    decreases u.len(),
{
    if u.len() == 0 {
        m
    } else {
        store_pairs(m, u.drop_last()).insert(u.last().0 as u16, u.last().1)
    }
}

/// The log line of a connecting client.
pub open spec fn connected_line(id: u32) -> Seq<char> {
    "Client "@ + decimal(id as nat) + " connected."@
}

/// The log line of a leaving client.
pub open spec fn disconnected_line(id: u32) -> Seq<char> {
    "Client "@ + decimal(id as nat) + " disconnected."@
}

/// The log line of a client's update.
pub open spec fn updated_line(id: u32, change_number: u64, count: nat) -> Seq<char> {
    "Client "@ + decimal(id as nat) + " updated state to change #"@ + decimal(change_number as nat) + ". "@ + decimal(
        count,
    ) + " items updated."@
}

/// The log line of an opened session.
pub open spec fn opened_line(port: u16) -> Seq<char> {
    "Opened session on port "@ + decimal(port as nat)
}

/// The state after a message from the server: the client count follows connections
/// (never below zero), updates are stored, a log line is added and the log capped.
pub open spec fn after_server_message(s: StateView, m: ServerMessage) -> StateView {
    match m {
        ServerMessage::ClientConnected(id) => StateView {
            session: match s.session {
                SessionState::Open { port, clients } => SessionState::Open { port, clients: (clients + 1) as usize },
                SessionState::Closed => SessionState::Closed,
            },
            log: capped(s.log.push(connected_line(id))),
            ..s
        },
        ServerMessage::ClientDisconnected(id) => StateView {
            session: match s.session {
                SessionState::Open { port, clients } => SessionState::Open {
                    port,
                    clients: if clients == 0 { 0 } else { (clients - 1) as usize },
                },
                SessionState::Closed => SessionState::Closed,
            },
            log: capped(s.log.push(disconnected_line(id))),
            ..s
        },
        ServerMessage::UpdateReceived { client_id, change_number, updates } => StateView {
            items: store_pairs(s.items, updates@),
            log: capped(s.log.push(updated_line(client_id, change_number, updates@.len()))),
            ..s
        },
    }
}

/// Nine copies of a flag.
pub open spec fn all_nine(v: bool) -> Seq<bool> {
    Seq::new(9, |i: int| v)
}

/// Set flag `idx` when it is one of the nine.
pub open spec fn set_flag(flags: Seq<bool>, idx: usize, v: bool) -> Seq<bool> {
    if idx < 9 {
        flags.update(idx as int, v)
    } else {
        flags
    }
}

/// The state after a message.
pub open spec fn next_state(s: StateView, m: Message) -> StateView {
    match m {
        Message::SwitchView(mode) => StateView { view_mode: mode, ..s },
        Message::ToggleSession => match s.session {
            SessionState::Closed => StateView {
                session: SessionState::Open { port: input_port(s.port_input), clients: 0 },
                log: s.log.push(opened_line(input_port(s.port_input))),
                ..s
            },
            SessionState::Open { .. } => StateView {
                session: SessionState::Closed,
                log: s.log.push("Closed session (UI only)."@),
                ..s
            },
        },
        Message::ServerMessage(msg) => after_server_message(s, msg),
        Message::RomPathInputChanged(path) => StateView { rom_path_input: path@, ..s },
        Message::BrowseRomPath => s,
        Message::RomPathSelected(path) => match path {
            Some(p) => StateView { rom_path_input: p@, ..s },
            None => s,
        },
        Message::ToggleRememberSettings(v) => StateView { remember_settings: v, ..s },
        Message::ClearLog => StateView { log: seq![], ..s },
        Message::SaveRomPath => s,
        Message::SeedInputChanged(seed) => StateView { seed_input: seed@, ..s },
        Message::RandomizeSeed => s,
        Message::PortInputChanged(port) => StateView { port_input: port@, ..s },
        Message::SetStartSword(v) => StateView { start_sword: v, ..s },
        Message::SetStartArrow(v) => StateView { start_arrow: v, ..s },
        Message::ToggleStartBow(v) => StateView { start_bow: v, ..s },
        Message::SetStartCandle(v) => StateView { start_candle: v, ..s },
        Message::SetStartRing(v) => StateView { start_ring: v, ..s },
        Message::SetStartMagicShield(v) => StateView { start_magic_shield: v, ..s },
        Message::SetStartBoomerang(v) => StateView { start_boomerang: v, ..s },
        Message::SetStartBombsInput(v) => StateView { start_bombs_input: v@, ..s },
        Message::SetMaxBombsInput(v) => StateView { max_bombs_input: v@, ..s },
        Message::SetStartRupeesInput(v) => StateView { start_rupees_input: v@, ..s },
        Message::SetStartKeysInput(v) => StateView { start_keys_input: v@, ..s },
        Message::SetHeartContainers(v) => StateView { heart_containers: v, ..s },
        Message::ToggleStartFood(v) => StateView { start_food: v, ..s },
        Message::SetStartPotion(v) => StateView { start_potion: v, ..s },
        Message::ToggleStartRecorder(v) => StateView { start_recorder: v, ..s },
        Message::ToggleStartMagicRod(v) => StateView { start_magic_rod: v, ..s },
        Message::ToggleStartRaft(v) => StateView { start_raft: v, ..s },
        Message::ToggleStartBook(v) => StateView { start_book: v, ..s },
        Message::ToggleStartLadder(v) => StateView { start_ladder: v, ..s },
        Message::ToggleStartMagicKey(v) => StateView { start_magic_key: v, ..s },
        Message::ToggleStartBracelet(v) => StateView { start_bracelet: v, ..s },
        Message::ToggleStartLetter(v) => StateView { start_letter: v, ..s },
        Message::ToggleCompass(idx, v) => StateView { compasses: set_flag(s.compasses, idx, v), ..s },
        Message::ToggleMap(idx, v) => StateView { maps: set_flag(s.maps, idx, v), ..s },
        Message::ToggleTriforce(idx, v) => StateView { triforce_pieces: set_flag(s.triforce_pieces, idx, v), ..s },
        Message::ToggleAllCompass(v) => StateView { compasses: all_nine(v), ..s },
        Message::ToggleAllMap(v) => StateView { maps: all_nine(v), ..s },
        Message::ToggleAllTriforce(v) => StateView { triforce_pieces: all_nine(v), ..s },
        Message::ToggleBossDefeated(idx, v) => StateView { bosses_defeated: set_flag(s.bosses_defeated, idx, v), ..s },
        Message::ToggleAllBossesDefeated(v) => StateView { bosses_defeated: all_nine(v), ..s },
        Message::LogMessage(msg) => StateView { log: s.log.push(msg@), ..s },
        Message::GenerateRom => match s.base_rom_path {
            Some(_) => StateView { log: s.log.push("ROM Generation triggered."@), ..s },
            None => StateView {
                log: s.log.push("ROM Generation triggered."@).push("Error: Base ROM path not set."@),
                ..s
            },
        },
    }
}

/// The starting inventory the window's settings describe; the number inputs count as 0
/// when they do not parse.
pub open spec fn inventory_of(s: StateView) -> StartInventoryOptions {
    StartInventoryOptions {
        start_sword: s.start_sword,
        start_arrow: s.start_arrow,
        start_bow: s.start_bow,
        start_candle: s.start_candle,
        start_ring: s.start_ring,
        start_magic_shield: s.start_magic_shield,
        start_boomerang: s.start_boomerang,
        start_bombs: input_u8(s.start_bombs_input),
        max_bombs: input_u8(s.max_bombs_input),
        start_rupees: input_u8(s.start_rupees_input),
        start_keys: input_u8(s.start_keys_input),
        heart_containers: s.heart_containers,
        start_food: s.start_food,
        start_potion: s.start_potion,
        start_recorder: s.start_recorder,
        start_magic_rod: s.start_magic_rod,
        start_raft: s.start_raft,
        start_book: s.start_book,
        start_ladder: s.start_ladder,
        start_magic_key: s.start_magic_key,
        start_bracelet: s.start_bracelet,
        start_letter: s.start_letter,
    }
}

/// The progression the window's settings describe.
pub open spec fn progression_matches(s: StateView, p: ProgressionOptions) -> bool {
    &&& p.compasses@ == s.compasses
    &&& p.maps@ == s.maps
    &&& p.triforce_pieces@ == s.triforce_pieces
    &&& p.bosses_defeated@ == s.bosses_defeated
}

/// The effect of a message: browse, save the entered ROM path, save a port that parses,
/// draw a seed, or build a ROM when a base ROM path is set; nothing otherwise.
pub open spec fn effect_of(s: StateView, m: Message, e: Effect) -> bool {
    match m {
        Message::BrowseRomPath => e is BrowseRomPath,
        Message::SaveRomPath => e matches Effect::SaveRomPath(p) && p@ == s.rom_path_input,
        Message::PortInputChanged(port) => match parse_unsigned(port@, 0xFFFF) {
            Some(v) => e == Effect::SavePort(v as u16),
            None => e is Nothing,
        },
        Message::RandomizeSeed => e is RandomizeSeed,
        Message::GenerateRom => match s.base_rom_path {
            Some(path) => e matches Effect::Generate(req) && req.base_rom_path@ == path && req.inventory == inventory_of(
                s,
            ) && progression_matches(s, req.progression),
            None => e is Nothing,
        },
        _ => e is Nothing,
    }
}

/// A message of group `inventory_a` of the update.
pub open spec fn is_inventory_a_message(m: Message) -> bool {
    match m {
        Message::SetStartSword { .. } | Message::SetStartArrow { .. } | Message::ToggleStartBow { .. } | Message::SetStartCandle { .. } | Message::SetStartRing { .. } | Message::SetStartMagicShield { .. } | Message::SetStartBoomerang { .. } | Message::SetStartBombsInput { .. } => true,
        _ => false,
    }
}

/// A message of group `inventory_b` of the update.
pub open spec fn is_inventory_b_message(m: Message) -> bool {
    match m {
        Message::SetMaxBombsInput { .. } | Message::SetStartRupeesInput { .. } | Message::SetStartKeysInput { .. } | Message::SetHeartContainers { .. } | Message::ToggleStartFood { .. } | Message::SetStartPotion { .. } | Message::ToggleStartRecorder { .. } | Message::ToggleStartMagicRod { .. } => true,
        _ => false,
    }
}

/// A message of group `inventory_c` of the update.
pub open spec fn is_inventory_c_message(m: Message) -> bool {
    match m {
        Message::ToggleStartRaft { .. } | Message::ToggleStartBook { .. } | Message::ToggleStartLadder { .. } | Message::ToggleStartMagicKey { .. } | Message::ToggleStartBracelet { .. } | Message::ToggleStartLetter { .. } => true,
        _ => false,
    }
}

/// A message of group `general_a` of the update.
pub open spec fn is_general_a_message(m: Message) -> bool {
    match m {
        Message::SwitchView { .. } | Message::ToggleSession { .. } | Message::ServerMessage { .. } | Message::RomPathInputChanged { .. } | Message::BrowseRomPath { .. } | Message::RomPathSelected { .. } | Message::ToggleRememberSettings { .. } => true,
        _ => false,
    }
}

/// A message of group `general_b` of the update.
pub open spec fn is_general_b_message(m: Message) -> bool {
    match m {
        Message::ClearLog { .. } | Message::SaveRomPath { .. } | Message::SeedInputChanged { .. } | Message::RandomizeSeed { .. } | Message::PortInputChanged { .. } | Message::LogMessage { .. } | Message::GenerateRom { .. } => true,
        _ => false,
    }
}

/// A message that changes the starting progression.
pub open spec fn is_progression_message(m: Message) -> bool {
    match m {
        Message::ToggleCompass { .. } | Message::ToggleMap { .. } | Message::ToggleTriforce { .. } | Message::ToggleAllCompass { .. } | Message::ToggleAllMap { .. } | Message::ToggleAllTriforce { .. } | Message::ToggleBossDefeated { .. } | Message::ToggleAllBossesDefeated { .. } => true,
        _ => false,
    }
}

/// The message can be handled without overflowing the client count.
pub open spec fn update_ok(s: StateView, m: Message) -> bool {
    match m {
        Message::ServerMessage(ServerMessage::ClientConnected(_)) => match s.session {
            SessionState::Open { clients, .. } => clients < usize::MAX,
            SessionState::Closed => true,
        },
        _ => true,
    }
}

fn connected_text(id: u32) -> (s: String)
    ensures
        s@ == connected_line(id),
{
    let mut s = String::new();
    s.append("Client ");
    push_decimal(&mut s, id as u64);
    s.append(" connected.");
    s
}

fn disconnected_text(id: u32) -> (s: String)
    ensures
        s@ == disconnected_line(id),
{
    let mut s = String::new();
    s.append("Client ");
    push_decimal(&mut s, id as u64);
    s.append(" disconnected.");
    s
}

fn updated_text(id: u32, change_number: u64, count: usize) -> (s: String)
    ensures
        s@ == updated_line(id, change_number, count as nat),
{
    let mut s = String::new();
    s.append("Client ");
    push_decimal(&mut s, id as u64);
    s.append(" updated state to change #");
    let ghost p1 = s@;
    push_decimal(&mut s, change_number);
    s.append(". ");
    push_decimal(&mut s, count as u64);
    s.append(" items updated.");
    assert(s@ =~= updated_line(id, change_number, count as nat));
    s
}

fn opened_text(port: u16) -> (s: String)
    ensures
        s@ == opened_line(port),
{
    let mut s = String::new();
    s.append("Opened session on port ");
    push_decimal(&mut s, port as u64);
    s
}

/// The text form of a number.
fn decimal_text(n: u64) -> (s: String)
    ensures
        s@ == decimal(n as nat),
{
    let mut s = String::new();
    push_decimal(&mut s, n);
    assert(s@ =~= decimal(n as nat));
    s
}

/// Nine copies of a flag.
fn nine(v: bool) -> (a: [bool; 9])
    ensures
        a@ == all_nine(v),
{
    let a = [v, v, v, v, v, v, v, v, v];
    assert(a@ =~= all_nine(v));
    a
}

/// The window as it first opens: the remembered ROM path (or the configuration page
/// when there is none), the seed and port, default settings and a "Ready." log.
pub open spec fn opening_view(path: Option<Seq<char>>, seed: u64, port: u16) -> StateView {
    StateView {
        session: SessionState::Closed,
        log: seq!["Ready."@],
        items: Map::empty(),
        view_mode: if path is None { ViewMode::Configure } else { ViewMode::Patch },
        base_rom_path: path,
        rom_path_input: match path {
            Some(p) => p,
            None => Seq::<char>::empty(),
        },
        remember_settings: true,
        seed_input: decimal(seed as nat),
        port_input: decimal(port as nat),
        start_sword: 0,
        start_arrow: 0,
        start_bow: false,
        start_candle: 0,
        start_ring: 0,
        start_magic_shield: 0,
        start_boomerang: 0,
        start_bombs_input: "8"@,
        max_bombs_input: "8"@,
        start_rupees_input: "0"@,
        start_keys_input: "0"@,
        heart_containers: 3,
        start_food: false,
        start_potion: 0,
        start_recorder: false,
        start_magic_rod: false,
        start_raft: false,
        start_book: false,
        start_ladder: false,
        start_magic_key: false,
        start_bracelet: false,
        start_letter: false,
        compasses: all_nine(false),
        maps: all_nine(false),
        triforce_pieces: all_nine(false),
        bosses_defeated: all_nine(false),
    }
}

/// Draw a random number with `rand::random::<u64>()`.
///
/// Trusted, and nothing is stated of the number: any `u64` may come back, and two
/// calls may give different numbers.
#[verifier::external_body]
fn random_u64() -> (n: u64) {
    rand::random::<u64>()
}

impl State {
    /// The window as it first opens: the remembered ROM path (or the configuration page
    /// when there is none), the given seed and port, default settings and a "Ready." log.
    pub fn new(loaded_path: Option<String>, initial_seed: u64, loaded_port: u16) -> (s: State)
        ensures
            s@ == opening_view(opt_text(loaded_path), initial_seed, loaded_port),
    {
        let input_str = match &loaded_path {
            Some(p) => p.clone(),
            None => String::new(),
        };
        let view_mode = if loaded_path.is_none() {
            ViewMode::Configure
        } else {
            ViewMode::Patch
        };
        let mut log: Vec<String> = Vec::new();
        log.push(String::from_str("Ready."));
        let s = State {
            session: SessionState::Closed,
            log,
            items: HashMap::new(),
            view_mode,
            base_rom_path: loaded_path,
            rom_path_input: input_str,
            remember_settings: true,
            seed_input: decimal_text(initial_seed),
            port_input: decimal_text(loaded_port as u64),
            start_sword: 0,
            start_arrow: 0,
            start_bow: false,
            start_candle: 0,
            start_ring: 0,
            start_magic_shield: 0,
            start_boomerang: 0,
            start_bombs_input: String::from_str("8"),
            max_bombs_input: String::from_str("8"),
            start_rupees_input: String::from_str("0"),
            start_keys_input: String::from_str("0"),
            heart_containers: 3,
            start_food: false,
            start_potion: 0,
            start_recorder: false,
            start_magic_rod: false,
            start_raft: false,
            start_book: false,
            start_ladder: false,
            start_magic_key: false,
            start_bracelet: false,
            start_letter: false,
            compasses: nine(false),
            maps: nine(false),
            triforce_pieces: nine(false),
            bosses_defeated: nine(false),
        };
        assert(s@.log =~= seq!["Ready."@]);
        assert(s@ =~= opening_view(opt_text(s.base_rom_path), initial_seed, loaded_port));
        s
    }

    /// The window as it first opens, with a freshly drawn seed.
    pub fn open(loaded_path: Option<String>, loaded_port: u16) -> (s: State)
        ensures
            exists|seed: u64| s@ == #[trigger] opening_view(opt_text(loaded_path), seed, loaded_port),
    {
        let seed = random_u64();
        State::new(loaded_path, seed, loaded_port)
    }

    /// Show a freshly drawn seed.
    pub fn randomize_seed(&mut self)
        ensures
            exists|seed: u64| final(self)@ == (StateView { seed_input: #[trigger] decimal(seed as nat), ..old(self)@ }),
    {
        let seed = random_u64();
        self.set_seed(seed);
    }

    /// Add a line to the log.
    fn push_log(&mut self, line: String)
        ensures
            final(self)@ == (StateView { log: old(self)@.log.push(line@), ..old(self)@ }),
    {
        self.log.push(line);
        assert(self@ =~= (StateView { log: old(self)@.log.push(line@), ..old(self)@ }));
    }

    /// Drop the oldest log line once the log passes 20 lines.
    fn cap_log(&mut self)
        ensures
            final(self)@ == (StateView { log: capped(old(self)@.log), ..old(self)@ }),
    {
        if self.log.len() > 20 {
            self.log.remove(0);
        }
        assert(self@ =~= (StateView { log: capped(old(self)@.log), ..old(self)@ }));
    }

    #[verifier::rlimit(60)]
    fn on_connected(&mut self, id: u32)
        requires
            update_ok(old(self)@, Message::ServerMessage(ServerMessage::ClientConnected(id))),
        ensures
            final(self)@ == after_server_message(old(self)@, ServerMessage::ClientConnected(id)),
    {
        match self.session {
            SessionState::Open { port, clients } => {
                self.session = SessionState::Open { port, clients: clients + 1 };
            },
            SessionState::Closed => {},
        }
        self.push_log(connected_text(id));
        self.cap_log();
    }

    fn on_disconnected(&mut self, id: u32)
        ensures
            final(self)@ == after_server_message(old(self)@, ServerMessage::ClientDisconnected(id)),
    {
        match self.session {
            SessionState::Open { port, clients } => {
                self.session = SessionState::Open { port, clients: clients.saturating_sub(1) };
            },
            SessionState::Closed => {},
        }
        self.push_log(disconnected_text(id));
        self.cap_log();
    }

    fn on_update_received(&mut self, client_id: u32, change_number: u64, updates: Vec<(u8, u8)>)
        ensures
            final(self)@ == after_server_message(
                old(self)@,
                ServerMessage::UpdateReceived { client_id, change_number, updates },
            ),
    {
        let ghost s0 = self@;
        let mut i: usize = 0;
        while i < updates.len()
            invariant
                i <= updates@.len(),
                self@ == (StateView { items: store_pairs(s0.items, updates@.take(i as int)), ..s0 }),
            decreases updates@.len() - i,
        {
            let (offset, val) = updates[i];
            self.items.insert(offset as u16, val);
            assert(updates@.take(i + 1).drop_last() =~= updates@.take(i as int));
            assert(self@ =~= (StateView { items: store_pairs(s0.items, updates@.take(i + 1)), ..s0 }));
            i = i + 1;
        }
        assert(updates@.take(updates@.len() as int) =~= updates@);
        self.push_log(updated_text(client_id, change_number, updates.len()));
        self.cap_log();
    }

    /// Take in a message from the server.
    fn on_server_message(&mut self, msg: ServerMessage)
        requires
            update_ok(old(self)@, Message::ServerMessage(msg)),
        ensures
            final(self)@ == after_server_message(old(self)@, msg),
    {
        match msg {
            ServerMessage::ClientConnected(id) => self.on_connected(id),
            ServerMessage::ClientDisconnected(id) => self.on_disconnected(id),
            ServerMessage::UpdateReceived { client_id, change_number, updates } => self.on_update_received(
                client_id,
                change_number,
                updates,
            ),
        }
    }

    fn set_start_sword(&mut self, v: u8)
        ensures
            final(self)@ == (StateView { start_sword: v, ..old(self)@ }),
    {
        self.start_sword = v;
    }

    fn set_start_arrow(&mut self, v: u8)
        ensures
            final(self)@ == (StateView { start_arrow: v, ..old(self)@ }),
    {
        self.start_arrow = v;
    }

    fn set_start_bow(&mut self, v: bool)
        ensures
            final(self)@ == (StateView { start_bow: v, ..old(self)@ }),
    {
        self.start_bow = v;
    }

    fn set_start_candle(&mut self, v: u8)
        ensures
            final(self)@ == (StateView { start_candle: v, ..old(self)@ }),
    {
        self.start_candle = v;
    }

    fn set_start_ring(&mut self, v: u8)
        ensures
            final(self)@ == (StateView { start_ring: v, ..old(self)@ }),
    {
        self.start_ring = v;
    }

    fn set_start_magic_shield(&mut self, v: u8)
        ensures
            final(self)@ == (StateView { start_magic_shield: v, ..old(self)@ }),
    {
        self.start_magic_shield = v;
    }

    fn set_start_boomerang(&mut self, v: u8)
        ensures
            final(self)@ == (StateView { start_boomerang: v, ..old(self)@ }),
    {
        self.start_boomerang = v;
    }

    fn set_start_bombs_input(&mut self, v: String)
        ensures
            final(self)@ == (StateView { start_bombs_input: v@, ..old(self)@ }),
    {
        self.start_bombs_input = v;
    }

    fn set_max_bombs_input(&mut self, v: String)
        ensures
            final(self)@ == (StateView { max_bombs_input: v@, ..old(self)@ }),
    {
        self.max_bombs_input = v;
    }

    fn set_start_rupees_input(&mut self, v: String)
        ensures
            final(self)@ == (StateView { start_rupees_input: v@, ..old(self)@ }),
    {
        self.start_rupees_input = v;
    }

    fn set_start_keys_input(&mut self, v: String)
        ensures
            final(self)@ == (StateView { start_keys_input: v@, ..old(self)@ }),
    {
        self.start_keys_input = v;
    }

    fn set_heart_containers(&mut self, v: u8)
        ensures
            final(self)@ == (StateView { heart_containers: v, ..old(self)@ }),
    {
        self.heart_containers = v;
    }

    fn set_start_food(&mut self, v: bool)
        ensures
            final(self)@ == (StateView { start_food: v, ..old(self)@ }),
    {
        self.start_food = v;
    }

    fn set_start_potion(&mut self, v: u8)
        ensures
            final(self)@ == (StateView { start_potion: v, ..old(self)@ }),
    {
        self.start_potion = v;
    }

    fn set_start_recorder(&mut self, v: bool)
        ensures
            final(self)@ == (StateView { start_recorder: v, ..old(self)@ }),
    {
        self.start_recorder = v;
    }

    fn set_start_magic_rod(&mut self, v: bool)
        ensures
            final(self)@ == (StateView { start_magic_rod: v, ..old(self)@ }),
    {
        self.start_magic_rod = v;
    }

    fn set_start_raft(&mut self, v: bool)
        ensures
            final(self)@ == (StateView { start_raft: v, ..old(self)@ }),
    {
        self.start_raft = v;
    }

    fn set_start_book(&mut self, v: bool)
        ensures
            final(self)@ == (StateView { start_book: v, ..old(self)@ }),
    {
        self.start_book = v;
    }

    fn set_start_ladder(&mut self, v: bool)
        ensures
            final(self)@ == (StateView { start_ladder: v, ..old(self)@ }),
    {
        self.start_ladder = v;
    }

    fn set_start_magic_key(&mut self, v: bool)
        ensures
            final(self)@ == (StateView { start_magic_key: v, ..old(self)@ }),
    {
        self.start_magic_key = v;
    }

    fn set_start_bracelet(&mut self, v: bool)
        ensures
            final(self)@ == (StateView { start_bracelet: v, ..old(self)@ }),
    {
        self.start_bracelet = v;
    }

    fn set_start_letter(&mut self, v: bool)
        ensures
            final(self)@ == (StateView { start_letter: v, ..old(self)@ }),
    {
        self.start_letter = v;
    }

    fn set_compasses_flag(&mut self, idx: usize, v: bool)
        ensures
            final(self)@ == (StateView { compasses: set_flag(old(self)@.compasses, idx, v), ..old(self)@ }),
    {
        if idx < 9 {
            self.compasses[idx] = v;
        }
        assert(self@ =~= (StateView { compasses: set_flag(old(self)@.compasses, idx, v), ..old(self)@ }));
    }

    fn set_maps_flag(&mut self, idx: usize, v: bool)
        ensures
            final(self)@ == (StateView { maps: set_flag(old(self)@.maps, idx, v), ..old(self)@ }),
    {
        if idx < 9 {
            self.maps[idx] = v;
        }
        assert(self@ =~= (StateView { maps: set_flag(old(self)@.maps, idx, v), ..old(self)@ }));
    }

    fn set_triforce_pieces_flag(&mut self, idx: usize, v: bool)
        ensures
            final(self)@ == (StateView { triforce_pieces: set_flag(old(self)@.triforce_pieces, idx, v), ..old(self)@ }),
    {
        if idx < 9 {
            self.triforce_pieces[idx] = v;
        }
        assert(self@ =~= (StateView { triforce_pieces: set_flag(old(self)@.triforce_pieces, idx, v), ..old(self)@ }));
    }

    fn set_bosses_defeated_flag(&mut self, idx: usize, v: bool)
        ensures
            final(self)@ == (StateView { bosses_defeated: set_flag(old(self)@.bosses_defeated, idx, v), ..old(self)@ }),
    {
        if idx < 9 {
            self.bosses_defeated[idx] = v;
        }
        assert(self@ =~= (StateView { bosses_defeated: set_flag(old(self)@.bosses_defeated, idx, v), ..old(self)@ }));
    }

    fn set_all_of(&mut self, which: u8, v: bool)
        requires
            which < 4,
        ensures
            final(self)@ == (if which == 0 {
                StateView { compasses: all_nine(v), ..old(self)@ }
            } else if which == 1 {
                StateView { maps: all_nine(v), ..old(self)@ }
            } else if which == 2 {
                StateView { triforce_pieces: all_nine(v), ..old(self)@ }
            } else {
                StateView { bosses_defeated: all_nine(v), ..old(self)@ }
            }),
    {
        if which == 0 {
            self.compasses = nine(v);
        } else if which == 1 {
            self.maps = nine(v);
        } else if which == 2 {
            self.triforce_pieces = nine(v);
        } else {
            self.bosses_defeated = nine(v);
        }
    }

    /// Handle one message: the new state is `next_state` of the old, and the effect the
    /// host must carry out is `effect_of` the message.
    pub fn update(&mut self, message: Message) -> (e: Effect)
        requires
            update_ok(old(self)@, message),
        ensures
            final(self)@ == next_state(old(self)@, message),
            effect_of(old(self)@, message, e),
    {
        match message {
            Message::SetStartSword { .. } | Message::SetStartArrow { .. } | Message::ToggleStartBow { .. } | Message::SetStartCandle { .. } | Message::SetStartRing { .. } | Message::SetStartMagicShield { .. } | Message::SetStartBoomerang { .. } | Message::SetStartBombsInput { .. } => self.update_inventory_a(message),
            Message::SetMaxBombsInput { .. } | Message::SetStartRupeesInput { .. } | Message::SetStartKeysInput { .. } | Message::SetHeartContainers { .. } | Message::ToggleStartFood { .. } | Message::SetStartPotion { .. } | Message::ToggleStartRecorder { .. } | Message::ToggleStartMagicRod { .. } => self.update_inventory_b(message),
            Message::ToggleStartRaft { .. } | Message::ToggleStartBook { .. } | Message::ToggleStartLadder { .. } | Message::ToggleStartMagicKey { .. } | Message::ToggleStartBracelet { .. } | Message::ToggleStartLetter { .. } => self.update_inventory_c(message),
            Message::SwitchView { .. } | Message::ToggleSession { .. } | Message::ServerMessage { .. } | Message::RomPathInputChanged { .. } | Message::BrowseRomPath { .. } | Message::RomPathSelected { .. } | Message::ToggleRememberSettings { .. } => self.update_general_a(message),
            Message::ToggleCompass { .. } | Message::ToggleMap { .. } | Message::ToggleTriforce { .. } | Message::ToggleAllCompass { .. } | Message::ToggleAllMap { .. } | Message::ToggleAllTriforce { .. } | Message::ToggleBossDefeated { .. } | Message::ToggleAllBossesDefeated { .. } => self.update_progression(message),
            _ => self.update_general_b(message),
        }
    }

    /// Handle a message of group `inventory_a`.
    #[verifier::rlimit(50)]
    fn update_inventory_a(&mut self, message: Message) -> (e: Effect)
        requires
            is_inventory_a_message(message),
            update_ok(old(self)@, message),
        ensures
            final(self)@ == next_state(old(self)@, message),
            effect_of(old(self)@, message, e),
    {
        match message {
            Message::SetStartSword(val) => {
                self.set_start_sword(val);
                Effect::Nothing
            },
            Message::SetStartArrow(val) => {
                self.set_start_arrow(val);
                Effect::Nothing
            },
            Message::ToggleStartBow(val) => {
                self.set_start_bow(val);
                Effect::Nothing
            },
            Message::SetStartCandle(val) => {
                self.set_start_candle(val);
                Effect::Nothing
            },
            Message::SetStartRing(val) => {
                self.set_start_ring(val);
                Effect::Nothing
            },
            Message::SetStartMagicShield(val) => {
                self.set_start_magic_shield(val);
                Effect::Nothing
            },
            Message::SetStartBoomerang(val) => {
                self.set_start_boomerang(val);
                Effect::Nothing
            },
            Message::SetStartBombsInput(val) => {
                self.set_start_bombs_input(val);
                Effect::Nothing
            },
            _ => Effect::Nothing,
        }
    }

    /// Handle a message of group `inventory_b`.
    #[verifier::rlimit(50)]
    fn update_inventory_b(&mut self, message: Message) -> (e: Effect)
        requires
            is_inventory_b_message(message),
            update_ok(old(self)@, message),
        ensures
            final(self)@ == next_state(old(self)@, message),
            effect_of(old(self)@, message, e),
    {
        match message {
            Message::SetMaxBombsInput(val) => {
                self.set_max_bombs_input(val);
                Effect::Nothing
            },
            Message::SetStartRupeesInput(val) => {
                self.set_start_rupees_input(val);
                Effect::Nothing
            },
            Message::SetStartKeysInput(val) => {
                self.set_start_keys_input(val);
                Effect::Nothing
            },
            Message::SetHeartContainers(val) => {
                self.set_heart_containers(val);
                Effect::Nothing
            },
            Message::ToggleStartFood(val) => {
                self.set_start_food(val);
                Effect::Nothing
            },
            Message::SetStartPotion(val) => {
                self.set_start_potion(val);
                Effect::Nothing
            },
            Message::ToggleStartRecorder(val) => {
                self.set_start_recorder(val);
                Effect::Nothing
            },
            Message::ToggleStartMagicRod(val) => {
                self.set_start_magic_rod(val);
                Effect::Nothing
            },
            _ => Effect::Nothing,
        }
    }

    /// Handle a message of group `inventory_c`.
    #[verifier::rlimit(50)]
    fn update_inventory_c(&mut self, message: Message) -> (e: Effect)
        requires
            is_inventory_c_message(message),
            update_ok(old(self)@, message),
        ensures
            final(self)@ == next_state(old(self)@, message),
            effect_of(old(self)@, message, e),
    {
        match message {
            Message::ToggleStartRaft(val) => {
                self.set_start_raft(val);
                Effect::Nothing
            },
            Message::ToggleStartBook(val) => {
                self.set_start_book(val);
                Effect::Nothing
            },
            Message::ToggleStartLadder(val) => {
                self.set_start_ladder(val);
                Effect::Nothing
            },
            Message::ToggleStartMagicKey(val) => {
                self.set_start_magic_key(val);
                Effect::Nothing
            },
            Message::ToggleStartBracelet(val) => {
                self.set_start_bracelet(val);
                Effect::Nothing
            },
            Message::ToggleStartLetter(val) => {
                self.set_start_letter(val);
                Effect::Nothing
            },
            _ => Effect::Nothing,
        }
    }

    /// Handle a message of group `general_a`.
    #[verifier::rlimit(50)]
    fn update_general_a(&mut self, message: Message) -> (e: Effect)
        requires
            is_general_a_message(message),
            update_ok(old(self)@, message),
        ensures
            final(self)@ == next_state(old(self)@, message),
            effect_of(old(self)@, message, e),
    {
        match message {
            Message::SwitchView(mode) => {
                self.set_view_mode(mode);
                Effect::Nothing
            },
            Message::ToggleSession => {
                self.toggle_session();
                Effect::Nothing
            },
            Message::ServerMessage(msg) => {
                self.on_server_message(msg);
                Effect::Nothing
            },
            Message::RomPathInputChanged(path) => {
                self.set_rom_path_input(path);
                Effect::Nothing
            },
            Message::BrowseRomPath => Effect::BrowseRomPath,
            Message::RomPathSelected(path_opt) => {
                if let Some(path) = path_opt {
                    self.set_rom_path_input(path);
                }
                Effect::Nothing
            },
            Message::ToggleRememberSettings(val) => {
                self.set_remember_settings(val);
                Effect::Nothing
            },
            _ => Effect::Nothing,
        }
    }

    /// Handle a message of group `general_b`.
    #[verifier::rlimit(50)]
    fn update_general_b(&mut self, message: Message) -> (e: Effect)
        requires
            is_general_b_message(message),
            update_ok(old(self)@, message),
        ensures
            final(self)@ == next_state(old(self)@, message),
            effect_of(old(self)@, message, e),
    {
        match message {
            Message::ClearLog => {
                self.clear_log();
                Effect::Nothing
            },
            Message::SaveRomPath => Effect::SaveRomPath(self.rom_path_input.clone()),
            Message::SeedInputChanged(seed) => {
                self.set_seed_input(seed);
                Effect::Nothing
            },
            Message::RandomizeSeed => Effect::RandomizeSeed,
            Message::PortInputChanged(port) => {
                let parsed = parse_u16(port.as_str());
                self.set_port_input(port);
                match parsed {
                    Some(p) => Effect::SavePort(p),
                    None => Effect::Nothing,
                }
            },
            Message::LogMessage(msg) => {
                self.push_log(msg);
                Effect::Nothing
            },
            Message::GenerateRom => self.generate_rom(),
            _ => Effect::Nothing,
        }
    }

    /// Handle a change of the starting progression.
    #[verifier::rlimit(50)]
    fn update_progression(&mut self, message: Message) -> (e: Effect)
        requires
            is_progression_message(message),
            update_ok(old(self)@, message),
        ensures
            final(self)@ == next_state(old(self)@, message),
            effect_of(old(self)@, message, e),
    {
        match message {
            Message::ToggleCompass(idx, val) => {
                self.set_compasses_flag(idx, val);
                Effect::Nothing
            },
            Message::ToggleMap(idx, val) => {
                self.set_maps_flag(idx, val);
                Effect::Nothing
            },
            Message::ToggleTriforce(idx, val) => {
                self.set_triforce_pieces_flag(idx, val);
                Effect::Nothing
            },
            Message::ToggleBossDefeated(idx, val) => {
                self.set_bosses_defeated_flag(idx, val);
                Effect::Nothing
            },
            Message::ToggleAllCompass(val) => {
                self.set_all_of(0, val);
                Effect::Nothing
            },
            Message::ToggleAllMap(val) => {
                self.set_all_of(1, val);
                Effect::Nothing
            },
            Message::ToggleAllTriforce(val) => {
                self.set_all_of(2, val);
                Effect::Nothing
            },
            Message::ToggleAllBossesDefeated(val) => {
                self.set_all_of(3, val);
                Effect::Nothing
            },
            _ => Effect::Nothing,
        }
    }

    fn set_view_mode(&mut self, v: ViewMode)
        ensures
            final(self)@ == (StateView { view_mode: v, ..old(self)@ }),
    {
        self.view_mode = v;
    }

    fn set_rom_path_input(&mut self, v: String)
        ensures
            final(self)@ == (StateView { rom_path_input: v@, ..old(self)@ }),
    {
        self.rom_path_input = v;
    }

    fn set_remember_settings(&mut self, v: bool)
        ensures
            final(self)@ == (StateView { remember_settings: v, ..old(self)@ }),
    {
        self.remember_settings = v;
    }

    fn set_seed_input(&mut self, v: String)
        ensures
            final(self)@ == (StateView { seed_input: v@, ..old(self)@ }),
    {
        self.seed_input = v;
    }

    fn set_port_input(&mut self, v: String)
        ensures
            final(self)@ == (StateView { port_input: v@, ..old(self)@ }),
    {
        self.port_input = v;
    }

    fn clear_log(&mut self)
        ensures
            final(self)@ == (StateView { log: seq![], ..old(self)@ }),
    {
        self.log.clear();
        assert(self@ =~= (StateView { log: seq![], ..old(self)@ }));
    }

    fn toggle_session(&mut self)
        ensures
            final(self)@ == next_state(old(self)@, Message::ToggleSession),
    {
        match self.session {
            SessionState::Closed => {
                let port = match parse_u16(self.port_input.as_str()) {
                    Some(p) => p,
                    None => DEFAULT_PORT,
                };
                self.session = SessionState::Open { port, clients: 0 };
                self.push_log(opened_text(port));
            },
            SessionState::Open { .. } => {
                self.session = SessionState::Closed;
                self.push_log(String::from_str("Closed session (UI only)."));
            },
        }
    }

    /// Ask for a ROM to be built from the current settings, when a base ROM path is set.
    fn generate_rom(&mut self) -> (e: Effect)
        ensures
            final(self)@ == next_state(old(self)@, Message::GenerateRom),
            effect_of(old(self)@, Message::GenerateRom, e),
    {
        let ghost s0 = self@;
        self.push_log(String::from_str("ROM Generation triggered."));
        match &self.base_rom_path {
            Some(base_path) => {
                let inventory = StartInventoryOptions {
                    start_sword: self.start_sword,
                    start_arrow: self.start_arrow,
                    start_bow: self.start_bow,
                    start_candle: self.start_candle,
                    start_ring: self.start_ring,
                    start_magic_shield: self.start_magic_shield,
                    start_boomerang: self.start_boomerang,
                    start_bombs: number_input(&self.start_bombs_input),
                    max_bombs: number_input(&self.max_bombs_input),
                    start_rupees: number_input(&self.start_rupees_input),
                    start_keys: number_input(&self.start_keys_input),
                    heart_containers: self.heart_containers,
                    start_food: self.start_food,
                    start_potion: self.start_potion,
                    start_recorder: self.start_recorder,
                    start_magic_rod: self.start_magic_rod,
                    start_raft: self.start_raft,
                    start_book: self.start_book,
                    start_ladder: self.start_ladder,
                    start_magic_key: self.start_magic_key,
                    start_bracelet: self.start_bracelet,
                    start_letter: self.start_letter,
                };
                let progression = ProgressionOptions {
                    compasses: self.compasses,
                    maps: self.maps,
                    triforce_pieces: self.triforce_pieces,
                    bosses_defeated: self.bosses_defeated,
                };
                Effect::Generate(GenerateRequest { base_rom_path: base_path.clone(), inventory, progression })
            },
            None => {
                self.push_log(String::from_str("Error: Base ROM path not set."));
                Effect::Nothing
            },
        }
    }

    /// Show a freshly drawn seed.
    pub fn set_seed(&mut self, seed: u64)
        ensures
            final(self)@ == (StateView { seed_input: decimal(seed as nat), ..old(self)@ }),
    {
        self.seed_input = decimal_text(seed);
    }

    /// Take in what became of a request to remember a ROM path: a saved path becomes the
    /// base ROM path; each outcome is logged.
    pub fn finish_save_rom_path(&mut self, path: String, outcome: SaveOutcome)
        ensures
            final(self)@ == (match outcome {
                SaveOutcome::Saved => StateView {
                    base_rom_path: Some(path@),
                    log: old(self)@.log.push("ROM path saved successfully."@),
                    ..old(self)@
                },
                SaveOutcome::SaveFailed => StateView {
                    log: old(self)@.log.push("Failed to save ROM path to config."@),
                    ..old(self)@
                },
                SaveOutcome::NotAFile => StateView {
                    log: old(self)@.log.push("Invalid ROM path: file does not exist."@),
                    ..old(self)@
                },
            }),
    {
        match outcome {
            SaveOutcome::Saved => {
                self.base_rom_path = Some(path);
                self.push_log(String::from_str("ROM path saved successfully."));
            },
            SaveOutcome::SaveFailed => {
                self.push_log(String::from_str("Failed to save ROM path to config."));
            },
            SaveOutcome::NotAFile => {
                self.push_log(String::from_str("Invalid ROM path: file does not exist."));
            },
        }
    }
}

/// The value of a number input: its parse, or 0.
fn number_input(s: &String) -> (v: u8)
    ensures
        v == input_u8(s@),
{
    match parse_u8(s.as_str()) {
        Some(v) => v,
        None => 0,
    }
}

/// Opening a session uses the port the window shows, when it shows a port number.
pub proof fn lemma_shown_port_opens(s: StateView, port: u16)
    requires
        s.port_input == decimal(port as nat),
        s.session == SessionState::Closed,
    ensures
        next_state(s, Message::ToggleSession).session == (SessionState::Open { port, clients: 0 }),
{
    lemma_parse_decimal(port as nat, 0xFFFF);
}

/// A client that connects and then leaves leaves the session as it was.
pub proof fn lemma_connect_then_disconnect(s: StateView, a: u32, b: u32)
    requires
        update_ok(s, Message::ServerMessage(ServerMessage::ClientConnected(a))),
    ensures
        after_server_message(
            after_server_message(s, ServerMessage::ClientConnected(a)),
            ServerMessage::ClientDisconnected(b),
        ).session == s.session,
{
}

/// Opening and then closing a session leaves it closed, as it was.
pub proof fn lemma_toggle_session_twice(s: StateView)
    requires
        s.session == SessionState::Closed,
    ensures
        next_state(next_state(s, Message::ToggleSession), Message::ToggleSession).session == SessionState::Closed,
{
}

/// A ROM request carries the window's settings, each to its own field: the base ROM
/// path; the compass, map, triforce and boss flags; every item setting; and each number
/// input that shows a number, as that number.
pub proof fn lemma_generate_carries_settings(s: StateView, e: Effect)
    requires
        s.base_rom_path is Some,
        effect_of(s, Message::GenerateRom, e),
    ensures
        e matches Effect::Generate(req) && {
            &&& Some(req.base_rom_path@) == s.base_rom_path
            &&& req.progression.compasses@ == s.compasses
            &&& req.progression.maps@ == s.maps
            &&& req.progression.triforce_pieces@ == s.triforce_pieces
            &&& req.progression.bosses_defeated@ == s.bosses_defeated
            &&& req.inventory.start_sword == s.start_sword
            &&& req.inventory.start_arrow == s.start_arrow
            &&& req.inventory.start_bow == s.start_bow
            &&& req.inventory.start_candle == s.start_candle
            &&& req.inventory.start_ring == s.start_ring
            &&& req.inventory.start_magic_shield == s.start_magic_shield
            &&& req.inventory.start_boomerang == s.start_boomerang
            &&& req.inventory.heart_containers == s.heart_containers
            &&& req.inventory.start_food == s.start_food
            &&& req.inventory.start_potion == s.start_potion
            &&& req.inventory.start_recorder == s.start_recorder
            &&& req.inventory.start_magic_rod == s.start_magic_rod
            &&& req.inventory.start_raft == s.start_raft
            &&& req.inventory.start_book == s.start_book
            &&& req.inventory.start_ladder == s.start_ladder
            &&& req.inventory.start_magic_key == s.start_magic_key
            &&& req.inventory.start_bracelet == s.start_bracelet
            &&& req.inventory.start_letter == s.start_letter
            &&& forall|n: u8| s.start_bombs_input == decimal(n as nat) ==> req.inventory.start_bombs == n
            &&& forall|n: u8| s.max_bombs_input == decimal(n as nat) ==> req.inventory.max_bombs == n
            &&& forall|n: u8| s.start_rupees_input == decimal(n as nat) ==> req.inventory.start_rupees == n
            &&& forall|n: u8| s.start_keys_input == decimal(n as nat) ==> req.inventory.start_keys == n
        },
{
    assert forall|n: u8| parse_unsigned(#[trigger] decimal(n as nat), 0xFF) == Some(n as nat) by {
        lemma_parse_decimal(n as nat, 0xFF);
    }
}

/// Checking compass (or map) `i` and then building a ROM asks for that compass (or map)
/// as checked, and leaves the other kind of flag as the window had it.
pub proof fn lemma_toggle_then_generate(s: StateView, i: usize, v: bool, e_compass: Effect, e_map: Effect)
    requires
        s.base_rom_path is Some,
        i < 9,
        s.compasses.len() == 9,
        s.maps.len() == 9,
        effect_of(next_state(s, Message::ToggleCompass(i, v)), Message::GenerateRom, e_compass),
        effect_of(next_state(s, Message::ToggleMap(i, v)), Message::GenerateRom, e_map),
    ensures
        e_compass matches Effect::Generate(req) && req.progression.compasses@[i as int] == v
            && req.progression.maps@ == s.maps,
        e_map matches Effect::Generate(req) && req.progression.maps@[i as int] == v
            && req.progression.compasses@ == s.compasses,
{
    lemma_generate_carries_settings(next_state(s, Message::ToggleCompass(i, v)), e_compass);
    lemma_generate_carries_settings(next_state(s, Message::ToggleMap(i, v)), e_map);
}

} // verus!
