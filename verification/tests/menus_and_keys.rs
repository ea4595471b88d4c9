use neowon_app::layout::{Icon, Roi, Settings};
use neowon_app::menu::{Menu, MenuState};
use neowon_app::shortcuts::{
    cycle_acquisition, cycle_coupling, cycle_sweep, cycle_trace_mode, fire, next_rung,
    shortcuts, toggle_slope, Acquisition, Coupling, Home, Key, ScopeAction, Slope, Sweep,
    TraceMode,
};

#[test]
fn every_key_is_bound_once() {
    let table = shortcuts();
    for (i, a) in table.iter().enumerate() {
        for b in &table[i + 1..] {
            assert_ne!(a.key, b.key, "{} and {} share a key", a.what, b.what);
        }
    }
}

#[test]
fn a_global_shortcut_acts_everywhere_and_a_homed_one_only_at_home() {
    for w in [Home::Scope, Home::Sdr] {
        assert!(Home::Global.acts_in(w));
        assert!(w.acts_in(w));
    }
    assert!(!Home::Scope.acts_in(Home::Sdr));
    assert!(!Home::Sdr.acts_in(Home::Scope));
    assert_eq!(Home::active(true), Home::Sdr);
    assert_eq!(Home::active(false), Home::Scope);
}

/// A scope key fires in the scope workspace and nothing fires in the SDR one.
#[test]
fn a_scope_shortcut_acts_only_in_the_scope_workspace() {
    let table = shortcuts();
    let scope: Vec<_> = table.iter().filter(|s| s.home == Home::Scope).collect();
    assert!(!scope.is_empty());
    for s in scope {
        let fired = fire(&table, &[s.key], Home::Scope);
        assert_eq!(fired.len(), 1, "{:?} ({}) did nothing in scope", s.key, s.what);
        assert_eq!(table[fired[0]].action, s.action);
        assert!(
            fire(&table, &[s.key], Home::Sdr).is_empty(),
            "{:?} ({}) acted in SDR",
            s.key,
            s.what
        );
    }
}

#[test]
fn autoset_is_not_sent_from_the_sdr_workspace() {
    let table = shortcuts();
    assert!(fire(&table, &[Key::KeyA], Home::Sdr).is_empty());
    let fired = fire(&table, &[Key::KeyA], Home::Scope);
    assert_eq!(fired.len(), 1);
    assert_eq!(table[fired[0]].action, ScopeAction::AutoSet);
    assert_eq!(table[fired[0]].what, "auto-set");
}

#[test]
fn the_table_reads_as_documented() {
    let table = shortcuts();
    assert_eq!(table.len(), 18);
    assert_eq!((table[0].key, table[0].what), (Key::Space, "run/stop"));
    assert_eq!((table[17].key, table[17].what), (Key::KeyX, "cycle trace mode"));
    // Several keys at once fire in table order.
    let fired = fire(&table, &[Key::KeyX, Key::Space, Key::Comma], Home::Scope);
    assert_eq!(fired, vec![0, 6, 17]);
}

#[test]
fn the_scope_modes_cycle() {
    assert_eq!(toggle_slope(Slope::Rising), Slope::Falling);
    assert_eq!(toggle_slope(Slope::Falling), Slope::Rising);
    assert_eq!(cycle_sweep(Sweep::Auto, false), (Sweep::Normal, false));
    // Arming single (re)starts acquisition.
    assert_eq!(cycle_sweep(Sweep::Normal, false), (Sweep::Single, true));
    assert_eq!(cycle_sweep(Sweep::Single, false), (Sweep::Auto, false));
    assert_eq!(cycle_sweep(Sweep::Single, true), (Sweep::Auto, true));
    let mut a = Acquisition::Sample;
    let mut seen = Vec::new();
    for _ in 0..5 {
        a = cycle_acquisition(a);
        seen.push(a);
    }
    assert_eq!(
        seen,
        vec![
            Acquisition::Peak,
            Acquisition::Average(4),
            Acquisition::Average(16),
            Acquisition::Average(64),
            Acquisition::Sample
        ]
    );
    assert_eq!(cycle_acquisition(Acquisition::Average(8)), Acquisition::Sample);
    assert_eq!(cycle_coupling(Coupling::Dc), Coupling::Ac);
    assert_eq!(cycle_coupling(Coupling::Gnd), Coupling::Dc);
    assert_eq!(cycle_trace_mode(TraceMode::Xy), TraceMode::Vectors);
    assert_eq!(next_rung(Some(2), 3), 0);
    assert_eq!(next_rung(None, 3), 1);
}

#[test]
fn sections_toggle_open_and_focus() {
    let mut m = MenuState::default();
    assert_eq!(m.open_list(), &[Menu::Trigger]);
    assert!(m.is_open(Menu::Trigger));
    m.toggle(Menu::Math);
    assert_eq!(m.open_list(), &[Menu::Trigger, Menu::Math]);
    assert!(m.take_focus(Menu::Math), "a newly opened section asks to be shown");
    assert!(!m.take_focus(Menu::Math), "the request is consumed");
    m.toggle(Menu::Trigger);
    assert_eq!(m.open_list(), &[Menu::Math]);
    m.open(Menu::Math);
    assert_eq!(m.open_list(), &[Menu::Math]);
    m.reveal_section(Menu::Channel(1));
    assert_eq!(m.open_list(), &[Menu::Math, Menu::Channel(1)]);
    assert!(m.take_focus(Menu::Channel(1)));
    m.set_exclusive(Some(Menu::Decode));
    assert_eq!(m.open_list(), &[Menu::Decode]);
    m.set_exclusive(None);
    assert!(m.open_list().is_empty());
    assert_eq!(Menu::Channel(0).title(), "Channel 1");
    assert_eq!(Menu::Channel(1).title(), "Channel 2");
    assert_eq!(Menu::Channel(5).title(), "Channel");
    assert_eq!(Menu::Record.title(), "Record / Export");
    assert_eq!(Menu::Cursor.title(), "Cursors");
}

#[test]
fn regions_have_stable_names() {
    let names: Vec<&str> = Roi::ALL.iter().map(|r| r.name()).collect();
    assert_eq!(
        names,
        vec!["menu_bar", "plot", "descriptors", "dialog", "front_panel", "trig_badge", "meas_overlay"]
    );
    assert_ne!(Icon::ZoomIn, Icon::ZoomOut);
    assert!(!Settings::default().open);
}
