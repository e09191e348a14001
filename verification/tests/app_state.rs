use zdu_lib::server::protocol::ServerMessage;
use zdu_lib::ui::app_state::{Effect, Message, SaveOutcome, SessionState, State, ViewMode};

fn fresh() -> State {
    State::new(Some("/roms/base.nes".to_string()), 1234, 42069)
}

#[test]
fn new_state_with_a_path() {
    let s = fresh();
    assert_eq!(s.session, SessionState::Closed);
    assert_eq!(s.log, vec!["Ready.".to_string()]);
    assert!(s.items.is_empty());
    assert_eq!(s.view_mode, ViewMode::Patch);
    assert_eq!(s.base_rom_path, Some("/roms/base.nes".to_string()));
    assert_eq!(s.rom_path_input, "/roms/base.nes");
    assert!(s.remember_settings);
    assert_eq!(s.seed_input, "1234");
    assert_eq!(s.port_input, "42069");
    assert_eq!(s.start_bombs_input, "8");
    assert_eq!(s.max_bombs_input, "8");
    assert_eq!(s.start_rupees_input, "0");
    assert_eq!(s.start_keys_input, "0");
    assert_eq!(s.heart_containers, 3);
    assert_eq!(s.compasses, [false; 9]);
}

#[test]
fn new_state_without_a_path_opens_configure() {
    let s = State::new(None, 0, 7);
    assert_eq!(s.view_mode, ViewMode::Configure);
    assert_eq!(s.base_rom_path, None);
    assert_eq!(s.rom_path_input, "");
    assert_eq!(s.seed_input, "0");
    assert_eq!(s.port_input, "7");
}

#[test]
fn shown_port_opens_law() {
    let mut s = fresh();
    assert!(matches!(s.update(Message::PortInputChanged("1234".to_string())), Effect::SavePort(1234)));
    assert!(matches!(s.update(Message::ToggleSession), Effect::Nothing));
    assert_eq!(s.session, SessionState::Open { port: 1234, clients: 0 });
    assert_eq!(s.log.last().unwrap(), "Opened session on port 1234");
}

#[test]
fn bad_port_falls_back_to_default() {
    let mut s = fresh();
    assert!(matches!(s.update(Message::PortInputChanged("70000".to_string())), Effect::Nothing));
    assert_eq!(s.port_input, "70000");
    s.update(Message::ToggleSession);
    assert_eq!(s.session, SessionState::Open { port: 42069, clients: 0 });
}

#[test]
fn connect_then_disconnect_law() {
    let mut s = fresh();
    s.update(Message::ToggleSession);
    s.update(Message::ServerMessage(ServerMessage::ClientConnected(3)));
    assert_eq!(s.session, SessionState::Open { port: 42069, clients: 1 });
    assert_eq!(s.log.last().unwrap(), "Client 3 connected.");
    s.update(Message::ServerMessage(ServerMessage::ClientDisconnected(3)));
    assert_eq!(s.session, SessionState::Open { port: 42069, clients: 0 });
    assert_eq!(s.log.last().unwrap(), "Client 3 disconnected.");
}

#[test]
fn disconnect_never_goes_below_zero() {
    let mut s = fresh();
    s.update(Message::ToggleSession);
    s.update(Message::ServerMessage(ServerMessage::ClientDisconnected(1)));
    assert_eq!(s.session, SessionState::Open { port: 42069, clients: 0 });
}

#[test]
fn connection_while_closed_only_logs() {
    let mut s = fresh();
    s.update(Message::ServerMessage(ServerMessage::ClientConnected(8)));
    assert_eq!(s.session, SessionState::Closed);
    assert_eq!(s.log, vec!["Ready.".to_string(), "Client 8 connected.".to_string()]);
}

#[test]
fn toggle_session_twice_law() {
    let mut s = fresh();
    s.update(Message::ToggleSession);
    s.update(Message::ToggleSession);
    assert_eq!(s.session, SessionState::Closed);
    assert_eq!(s.log.last().unwrap(), "Closed session (UI only).");
}

#[test]
fn update_received_stores_items_and_logs() {
    let mut s = fresh();
    let msg = ServerMessage::UpdateReceived { client_id: 2, change_number: 5, updates: vec![(1, 4), (0x18, 0x22), (1, 6)] };
    s.update(Message::ServerMessage(msg));
    assert_eq!(s.items.get(&1), Some(&6));
    assert_eq!(s.items.get(&0x18), Some(&0x22));
    assert_eq!(s.log.last().unwrap(), "Client 2 updated state to change #5. 3 items updated.");
}

#[test]
fn server_log_is_capped_at_twenty() {
    let mut s = fresh();
    for i in 0..25u32 {
        s.update(Message::ServerMessage(ServerMessage::ClientConnected(i)));
    }
    assert_eq!(s.log.len(), 20);
    assert_eq!(s.log[0], "Client 5 connected.");
    assert_eq!(s.log[19], "Client 24 connected.");
}

#[test]
fn other_log_lines_are_not_capped() {
    let mut s = fresh();
    for i in 0..25u32 {
        s.update(Message::LogMessage(format!("line {}", i)));
    }
    assert_eq!(s.log.len(), 26);
    s.update(Message::ClearLog);
    assert!(s.log.is_empty());
}

#[test]
fn path_messages() {
    let mut s = fresh();
    s.update(Message::RomPathInputChanged(" /x.nes ".to_string()));
    assert_eq!(s.rom_path_input, " /x.nes ");
    assert!(matches!(s.update(Message::BrowseRomPath), Effect::BrowseRomPath));
    s.update(Message::RomPathSelected(None));
    assert_eq!(s.rom_path_input, " /x.nes ");
    s.update(Message::RomPathSelected(Some("/y.nes".to_string())));
    assert_eq!(s.rom_path_input, "/y.nes");
    match s.update(Message::SaveRomPath) {
        Effect::SaveRomPath(p) => assert_eq!(p, "/y.nes"),
        other => panic!("unexpected {:?}", other),
    }
}

#[test]
fn save_outcomes() {
    let mut s = State::new(None, 1, 1);
    s.finish_save_rom_path("/z.nes".to_string(), SaveOutcome::NotAFile);
    assert_eq!(s.base_rom_path, None);
    assert_eq!(s.log.last().unwrap(), "Invalid ROM path: file does not exist.");
    s.finish_save_rom_path("/z.nes".to_string(), SaveOutcome::SaveFailed);
    assert_eq!(s.base_rom_path, None);
    assert_eq!(s.log.last().unwrap(), "Failed to save ROM path to config.");
    s.finish_save_rom_path("/z.nes".to_string(), SaveOutcome::Saved);
    assert_eq!(s.base_rom_path, Some("/z.nes".to_string()));
    assert_eq!(s.log.last().unwrap(), "ROM path saved successfully.");
}

#[test]
fn seed_messages() {
    let mut s = fresh();
    s.update(Message::SeedInputChanged("abc".to_string()));
    assert_eq!(s.seed_input, "abc");
    assert!(matches!(s.update(Message::RandomizeSeed), Effect::RandomizeSeed));
    assert_eq!(s.seed_input, "abc");
    s.set_seed(18446744073709551615);
    assert_eq!(s.seed_input, "18446744073709551615");
}

#[test]
fn flags_by_index() {
    let mut s = fresh();
    s.update(Message::ToggleCompass(2, true));
    s.update(Message::ToggleMap(8, true));
    s.update(Message::ToggleTriforce(9, true));
    s.update(Message::ToggleBossDefeated(0, true));
    assert_eq!(s.compasses, [false, false, true, false, false, false, false, false, false]);
    assert_eq!(s.maps, [false, false, false, false, false, false, false, false, true]);
    assert_eq!(s.triforce_pieces, [false; 9]);
    assert_eq!(s.bosses_defeated[0], true);
    s.update(Message::ToggleAllCompass(true));
    s.update(Message::ToggleAllMap(false));
    s.update(Message::ToggleAllTriforce(true));
    s.update(Message::ToggleAllBossesDefeated(true));
    assert_eq!(s.compasses, [true; 9]);
    assert_eq!(s.maps, [false; 9]);
    assert_eq!(s.triforce_pieces, [true; 9]);
    assert_eq!(s.bosses_defeated, [true; 9]);
}

#[test]
fn inventory_settings() {
    let mut s = fresh();
    s.update(Message::SetStartSword(3));
    s.update(Message::SetStartArrow(2));
    s.update(Message::ToggleStartBow(true));
    s.update(Message::SetStartCandle(1));
    s.update(Message::SetStartRing(2));
    s.update(Message::SetStartMagicShield(1));
    s.update(Message::SetStartBoomerang(2));
    s.update(Message::SetHeartContainers(16));
    s.update(Message::ToggleStartFood(true));
    s.update(Message::SetStartPotion(1));
    s.update(Message::ToggleStartRecorder(true));
    s.update(Message::ToggleStartMagicRod(true));
    s.update(Message::ToggleStartRaft(true));
    s.update(Message::ToggleStartBook(true));
    s.update(Message::ToggleStartLadder(true));
    s.update(Message::ToggleStartMagicKey(true));
    s.update(Message::ToggleStartBracelet(true));
    s.update(Message::ToggleStartLetter(true));
    s.update(Message::ToggleRememberSettings(false));
    s.update(Message::SwitchView(ViewMode::Log));
    assert_eq!(s.start_sword, 3);
    assert_eq!(s.start_arrow, 2);
    assert!(s.start_bow);
    assert_eq!(s.start_candle, 1);
    assert_eq!(s.start_ring, 2);
    assert_eq!(s.start_magic_shield, 1);
    assert_eq!(s.start_boomerang, 2);
    assert_eq!(s.heart_containers, 16);
    assert!(s.start_food && s.start_recorder && s.start_magic_rod && s.start_raft);
    assert!(s.start_book && s.start_ladder && s.start_magic_key && s.start_bracelet && s.start_letter);
    assert_eq!(s.start_potion, 1);
    assert!(!s.remember_settings);
    assert_eq!(s.view_mode, ViewMode::Log);
}

#[test]
fn generate_request_carries_the_settings() {
    let mut s = fresh();
    s.update(Message::SetStartSword(2));
    s.update(Message::SetStartBombsInput("+12".to_string()));
    s.update(Message::SetMaxBombsInput("300".to_string()));
    s.update(Message::SetStartRupeesInput("255".to_string()));
    s.update(Message::SetStartKeysInput("x".to_string()));
    s.update(Message::ToggleTriforce(4, true));
    match s.update(Message::GenerateRom) {
        Effect::Generate(req) => {
            assert_eq!(req.base_rom_path, "/roms/base.nes");
            assert_eq!(req.inventory.start_sword, 2);
            assert_eq!(req.inventory.start_bombs, 12);
            assert_eq!(req.inventory.max_bombs, 0);
            assert_eq!(req.inventory.start_rupees, 255);
            assert_eq!(req.inventory.start_keys, 0);
            assert_eq!(req.inventory.heart_containers, 3);
            assert!(req.progression.triforce_pieces[4]);
            assert!(!req.progression.triforce_pieces[3]);
        }
        other => panic!("unexpected {:?}", other),
    }
    assert_eq!(s.log.last().unwrap(), "ROM Generation triggered.");
}

#[test]
fn generate_without_a_path_logs_an_error() {
    let mut s = State::new(None, 1, 1);
    assert!(matches!(s.update(Message::GenerateRom), Effect::Nothing));
    assert_eq!(
        s.log,
        vec![
            "Ready.".to_string(),
            "ROM Generation triggered.".to_string(),
            "Error: Base ROM path not set.".to_string()
        ]
    );
}

#[test]
fn opening_draws_a_seed() {
    let s = State::open(None, 9);
    assert!(s.seed_input.parse::<u64>().is_ok());
    assert_eq!(s.seed_input, s.seed_input.parse::<u64>().unwrap().to_string());
    assert_eq!(s.port_input, "9");
    assert_eq!(s.view_mode, ViewMode::Configure);
    assert_eq!(s.log, vec!["Ready.".to_string()]);
}

#[test]
fn randomize_seed_shows_a_number() {
    let mut s = fresh();
    s.update(Message::SeedInputChanged("abc".to_string()));
    s.randomize_seed();
    let n: u64 = s.seed_input.parse().unwrap();
    assert_eq!(s.seed_input, n.to_string());
    assert_eq!(s.port_input, "42069");
}
