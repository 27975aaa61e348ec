use lg600r::config::{BindingType, Configuration};
use lg600r::dispatch::{fallback_notice, Action, Dispatcher, Outcome};
use lg600r::gkey::format_gkey;
use lg600r::keys::Key;
use lg600r::record::{LogicalEvent, RawRecord, EV_KEY, EV_MSC, MSC_SCAN};
use lg600r::sync::Synchronizer;
use lg600r::table::{BindingTable, ScancodeMap};

fn command(text: &str) -> BindingType {
    BindingType::Command(text.to_string())
}

fn pair(scan_value: i32, key_value: i32) -> [RawRecord; 2] {
    [
        RawRecord { event_type: EV_MSC, code: MSC_SCAN, value: scan_value },
        RawRecord { event_type: EV_KEY, code: 2, value: key_value },
    ]
}

fn outcomes(config: &Configuration, records: &[RawRecord]) -> Vec<Outcome> {
    let dispatcher = Dispatcher::new(config);
    let mut sync = Synchronizer::new();
    sync.feed_all(records).into_iter().map(|event| dispatcher.dispatch(event)).collect()
}

#[test]
fn command_runs_on_press_only() {
    let config = Configuration {
        bindings: vec![(9, command("echo hi"))],
        scancodes: vec![(9, 30)],
    };
    assert_eq!(
        outcomes(&config, &pair(30, 1)),
        vec![Outcome::Bound { gkey: 9, action: Action::RunShell("echo hi".to_string()) }]
    );
    assert_eq!(
        outcomes(&config, &pair(30, 0)),
        vec![Outcome::Bound { gkey: 9, action: Action::Nothing }]
    );
}

#[test]
fn mouse_button_follows_both_edges() {
    let config = Configuration {
        bindings: vec![(113, BindingType::EmulateMouse(9))],
        scancodes: vec![(113, 7)],
    };
    assert_eq!(
        outcomes(&config, &pair(7, 1)),
        vec![Outcome::Bound { gkey: 113, action: Action::MouseDown(9) }]
    );
    assert_eq!(
        outcomes(&config, &pair(7, 0)),
        vec![Outcome::Bound { gkey: 113, action: Action::MouseUp(9) }]
    );
}

#[test]
fn key_follows_both_edges() {
    let config = Configuration {
        bindings: vec![(115, BindingType::EmulateKey(Key::F1))],
        scancodes: vec![(115, 24)],
    };
    assert_eq!(
        outcomes(&config, &pair(24, 1)),
        vec![Outcome::Bound { gkey: 115, action: Action::KeyDown(Key::F1) }]
    );
    assert_eq!(
        outcomes(&config, &pair(24, 0)),
        vec![Outcome::Bound { gkey: 115, action: Action::KeyUp(Key::F1) }]
    );
}

#[test]
fn key_sequence_is_carried_and_does_nothing() {
    let config = Configuration {
        bindings: vec![(8, BindingType::KeySequence("hello".to_string()))],
        scancodes: vec![(8, 26)],
    };
    let dispatcher = Dispatcher::new(&config);
    for pressed in [true, false] {
        assert_eq!(
            dispatcher.dispatch(LogicalEvent { scancode: 26, pressed }),
            Outcome::Bound { gkey: 8, action: Action::Nothing }
        );
    }
    let scancodes = ScancodeMap::new(&config.scancodes);
    let table = BindingTable::build(&config.bindings, &scancodes);
    assert_eq!(table.lookup(26), Some((8, &BindingType::KeySequence("hello".to_string()))));
}

#[test]
fn unmapped_gkey_is_filed_under_its_own_number() {
    let config = Configuration { bindings: vec![(12, command("tadah"))], scancodes: vec![] };
    assert_eq!(
        outcomes(&config, &pair(12, 1)),
        vec![Outcome::Bound { gkey: 12, action: Action::RunShell("tadah".to_string()) }]
    );
    let scancodes = ScancodeMap::new(&config.scancodes);
    assert_eq!(scancodes.scancode_of(12), None);
    assert_eq!(scancodes.resolve(12), 12);
    let table = BindingTable::build(&config.bindings, &scancodes);
    assert_eq!(table.lookup(12), Some((12, &command("tadah"))));
}

#[test]
fn unbound_scancode_has_no_action_and_one_notice() {
    let config = Configuration {
        bindings: vec![(9, command("echo hi"))],
        scancodes: vec![(9, 30), (10, 31), (104, 80)],
    };
    let dispatcher = Dispatcher::new(&config);

    let known = dispatcher.dispatch(LogicalEvent { scancode: 31, pressed: true });
    assert_eq!(known, Outcome::Unbound { scancode: 31, known_as: Some(10) });
    assert_eq!(known.action(), &Action::Nothing);
    assert_eq!(known.notice(), Some("Scancode 31 (G10) is unbound".to_string()));

    let shifted = dispatcher.dispatch(LogicalEvent { scancode: 80, pressed: false });
    assert_eq!(shifted, Outcome::Unbound { scancode: 80, known_as: Some(104) });
    assert_eq!(shifted.notice(), Some("Scancode 80 (G^4) is unbound".to_string()));

    let unknown = dispatcher.dispatch(LogicalEvent { scancode: 77, pressed: true });
    assert_eq!(unknown, Outcome::Unbound { scancode: 77, known_as: None });
    assert_eq!(unknown.action(), &Action::Nothing);
    assert_eq!(unknown.notice(), Some("Scancode 77 is unbound".to_string()));

    let bound = dispatcher.dispatch(LogicalEvent { scancode: 30, pressed: true });
    assert_eq!(bound.action(), &Action::RunShell("echo hi".to_string()));
    assert_eq!(bound.notice(), None);
}

#[test]
fn later_binding_wins_on_the_same_scancode() {
    // 9 resolves to 30; 30 has no scancode of its own and resolves to 30 too.
    let config = Configuration {
        bindings: vec![(9, command("first")), (30, command("second"))],
        scancodes: vec![(9, 30)],
    };
    let dispatcher = Dispatcher::new(&config);
    assert_eq!(
        dispatcher.dispatch(LogicalEvent { scancode: 30, pressed: true }),
        Outcome::Bound { gkey: 30, action: Action::RunShell("second".to_string()) }
    );
    let config = Configuration {
        bindings: vec![(30, command("second")), (9, command("first"))],
        scancodes: vec![(9, 30)],
    };
    let dispatcher = Dispatcher::new(&config);
    assert_eq!(
        dispatcher.dispatch(LogicalEvent { scancode: 30, pressed: true }),
        Outcome::Bound { gkey: 9, action: Action::RunShell("first".to_string()) }
    );
    // the same logical key bound twice
    let config = Configuration {
        bindings: vec![(9, command("old")), (9, command("new"))],
        scancodes: vec![(9, 30)],
    };
    let dispatcher = Dispatcher::new(&config);
    assert_eq!(
        dispatcher.dispatch(LogicalEvent { scancode: 30, pressed: true }),
        Outcome::Bound { gkey: 9, action: Action::RunShell("new".to_string()) }
    );
}

#[test]
fn building_twice_gives_the_same_table() {
    let config = Configuration {
        bindings: vec![
            (12, command("tadah")),
            (9, command("wooo")),
            (113, BindingType::EmulateMouse(9)),
            (115, BindingType::EmulateKey(Key::F1)),
        ],
        scancodes: vec![(9, 30), (113, 7), (115, 24)],
    };
    let first = Dispatcher::new(&config);
    let second = Dispatcher::new(&config);
    for scancode in 0..200 {
        for pressed in [true, false] {
            let event = LogicalEvent { scancode, pressed };
            assert_eq!(first.dispatch(event), second.dispatch(event));
        }
    }
    assert_eq!(
        first.dispatch(LogicalEvent { scancode: 7, pressed: true }),
        Outcome::Bound { gkey: 113, action: Action::MouseDown(9) }
    );
    assert_eq!(
        first.dispatch(LogicalEvent { scancode: 12, pressed: true }),
        Outcome::Bound { gkey: 12, action: Action::RunShell("tadah".to_string()) }
    );
    assert_eq!(
        first.dispatch(LogicalEvent { scancode: 9, pressed: true }),
        Outcome::Unbound { scancode: 9, known_as: None }
    );
}

#[test]
fn last_scancode_entry_of_a_gkey_counts() {
    let scancodes = ScancodeMap::new(&vec![(9, 30), (9, 31)]);
    assert_eq!(scancodes.scancode_of(9), Some(31));
    assert_eq!(scancodes.resolve(9), 31);
    assert_eq!(scancodes.gkey_of(31), Some(9));
    assert_eq!(scancodes.gkey_of(30), None);
}

#[test]
fn scancode_is_best_known_by_its_greatest_gkey() {
    let scancodes = ScancodeMap::new(&vec![(20, 5), (7, 5), (13, 5), (1, 6)]);
    assert_eq!(scancodes.gkey_of(5), Some(20));
    assert_eq!(scancodes.gkey_of(6), Some(1));
    assert_eq!(scancodes.gkey_of(7), None);
    let scancodes = ScancodeMap::new(&vec![(7, 5), (20, 5), (20, 6)]);
    assert_eq!(scancodes.gkey_of(5), Some(7));
    assert_eq!(scancodes.gkey_of(6), Some(20));
}

#[test]
fn binding_action_by_edge() {
    assert_eq!(command("ls").action(true), Action::RunShell("ls".to_string()));
    assert_eq!(command("ls").action(false), Action::Nothing);
    assert_eq!(BindingType::EmulateMouse(3).action(true), Action::MouseDown(3));
    assert_eq!(BindingType::EmulateMouse(3).action(false), Action::MouseUp(3));
    assert_eq!(BindingType::EmulateKey(Key::Tab).action(true), Action::KeyDown(Key::Tab));
    assert_eq!(BindingType::EmulateKey(Key::Tab).action(false), Action::KeyUp(Key::Tab));
    assert_eq!(BindingType::KeySequence("x".to_string()).action(true), Action::Nothing);
    assert_eq!(BindingType::KeySequence("x".to_string()).action(false), Action::Nothing);
}

#[test]
fn binding_clone_is_equal() {
    for binding in [
        command("echo hi"),
        BindingType::EmulateKey(Key::Layout('x')),
        BindingType::EmulateMouse(9),
        BindingType::KeySequence("abc".to_string()),
    ] {
        assert_eq!(binding.clone(), binding);
    }
}

#[test]
fn gkey_labels() {
    assert_eq!(format_gkey(0), "G0");
    assert_eq!(format_gkey(9), "G9");
    assert_eq!(format_gkey(20), "G20");
    assert_eq!(format_gkey(99), "G99");
    assert_eq!(format_gkey(100), "G^0");
    assert_eq!(format_gkey(113), "G^13");
    assert_eq!(format_gkey(u32::MAX), "G^4294967195");
}

#[test]
fn bindings_without_scancode_are_named() {
    let config = Configuration {
        bindings: vec![
            (12, command("tadah")),
            (9, command("wooo")),
            (113, BindingType::EmulateMouse(9)),
            (12, command("again")),
        ],
        scancodes: vec![(9, 30)],
    };
    let dispatcher = Dispatcher::new(&config);
    assert_eq!(dispatcher.scancode_map().unmapped_gkeys(&config.bindings), vec![12, 113, 12]);
    assert_eq!(dispatcher.scancode_map().unmapped_gkeys(&vec![]), vec![]);
    assert_eq!(dispatcher.scancode_map().scancode_of(9), Some(30));
    assert_eq!(dispatcher.binding_table().lookup(30), Some((9, &command("wooo"))));
    assert_eq!(dispatcher.binding_table().lookup(12), Some((12, &command("again"))));
    assert_eq!(dispatcher.binding_table().lookup(9), None);
    assert_eq!(fallback_notice(12), "GKey 12 not mapped to scancode; using as scancode");
    assert_eq!(fallback_notice(113), "GKey 113 not mapped to scancode; using as scancode");
}
