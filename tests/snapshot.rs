use wm_snapshot::atoms::AtomTable;
use wm_snapshot::event_loop::{is_watched, ChangeLoop, LoopAction, LoopEvent, Phase};
use wm_snapshot::model::{Desktop, State, Window, WindowState};
use wm_snapshot::synthesis::{active_handle, classify_states, make_window, synthesize, ClientReply, SynthesisError};

const UNKNOWN_ATOM: u32 = 999;
const ROOT: u32 = 0x100;
const W1: u32 = 0x0040_0001;
const W2: u32 = 0x0040_0002;

fn table() -> AtomTable {
    AtomTable {
        state_modal: 301,
        state_sticky: 302,
        state_maximized_vert: 303,
        state_maximized_horz: 304,
        state_shaded: 305,
        state_skip_taskbar: 306,
        state_skip_pager: 307,
        state_hidden: 308,
        state_fullscreen: 309,
        state_above: 310,
        state_below: 311,
        state_demands_attention: 312,
        active_window: 401,
        current_desktop: 402,
        client_list_stacking: 403,
        close_window: 404,
        showing_desktop: 405,
    }
}

fn names(list: &[&str]) -> Vec<String> {
    list.iter().map(|s| s.to_string()).collect()
}

fn client(resource_id: u32, desktop_id: u32, raw_states: Vec<u32>, name: &str) -> ClientReply {
    ClientReply { resource_id, desktop_id, raw_states, name: name.to_string() }
}

fn same_window(a: &Window, b: &Window) -> bool {
    a.resource_id == b.resource_id && a.name == b.name && a.desktop_id == b.desktop_id && a.states == b.states
}

fn same_state(a: &State, b: &State) -> bool {
    let same_desktops = a.desktops.len() == b.desktops.len()
        && a.desktops.iter().zip(b.desktops.iter()).all(|(x, y): (&Desktop, &Desktop)| {
            x.name == y.name
                && x.id == y.id
                && x.windows.len() == y.windows.len()
                && x.windows.iter().zip(y.windows.iter()).all(|(v, w)| same_window(v, w))
        });
    let same_active = match (&a.active_window, &b.active_window) {
        (Some(x), Some(y)) => same_window(x, y),
        (None, None) => true,
        _ => false,
    };
    same_desktops && a.current_desktop_id == b.current_desktop_id && same_active
}

#[test]
fn scenario_single_fullscreen_window() {
    let t = table();
    let clients = vec![client(W1, 1, vec![t.state_fullscreen, UNKNOWN_ATOM], "browser")];
    let s = synthesize(&t, &names(&["main", "web"]), Some(W1), &clients, 1).unwrap();
    assert_eq!(s.desktops.len(), 2);
    assert_eq!(s.desktops[0].name, "main");
    assert_eq!(s.desktops[0].id, 0);
    assert!(s.desktops[0].windows.is_empty());
    assert_eq!(s.desktops[1].name, "web");
    assert_eq!(s.desktops[1].id, 1);
    assert_eq!(s.desktops[1].windows.len(), 1);
    let w = &s.desktops[1].windows[0];
    assert_eq!(w.resource_id, W1);
    assert_eq!(w.name, "browser");
    assert_eq!(w.desktop_id, 1);
    assert_eq!(w.states, vec![WindowState::Fullscreen]);
    assert_eq!(s.current_desktop_id, 1);
    let a = s.active_window.as_ref().unwrap();
    assert!(same_window(a, w));
}

#[test]
fn scenario_no_clients() {
    let t = table();
    let s = synthesize(&t, &names(&["only"]), None, &vec![], 0).unwrap();
    assert_eq!(s.desktops.len(), 1);
    assert_eq!(s.desktops[0].name, "only");
    assert_eq!(s.desktops[0].id, 0);
    assert!(s.desktops[0].windows.is_empty());
    assert_eq!(s.current_desktop_id, 0);
    assert!(s.active_window.is_none());
}

#[test]
fn scenario_window_on_unknown_desktop() {
    let t = table();
    let clients = vec![client(W1, 0, vec![], "a"), client(W2, 5, vec![], "b")];
    let r = synthesize(&t, &names(&["one", "two"]), None, &clients, 0);
    assert_eq!(r.unwrap_err(), SynthesisError::UnknownWindowDesktop { resource_id: W2, desktop_id: 5 });
}

#[test]
fn first_unknown_desktop_is_reported() {
    let t = table();
    let clients = vec![client(W1, 7, vec![], "a"), client(W2, 5, vec![], "b")];
    let r = synthesize(&t, &names(&["one", "two"]), None, &clients, 0);
    assert_eq!(r.unwrap_err(), SynthesisError::UnknownWindowDesktop { resource_id: W1, desktop_id: 7 });
}

#[test]
fn unknown_current_desktop_fails() {
    let t = table();
    let r = synthesize(&t, &names(&["one", "two"]), None, &vec![client(W1, 1, vec![], "a")], 2);
    assert_eq!(r.unwrap_err(), SynthesisError::UnknownCurrentDesktop { desktop_id: 2 });
}

#[test]
fn no_desktops_fails() {
    let t = table();
    let r = synthesize(&t, &vec![], None, &vec![], 0);
    assert_eq!(r.unwrap_err(), SynthesisError::UnknownCurrentDesktop { desktop_id: 0 });
}

#[test]
fn scenario_uninteresting_atom_keeps_waiting() {
    let t = table();
    let mut l = ChangeLoop::new(t, vec![ROOT]);
    assert!(matches!(l.step(LoopEvent::Started), LoopAction::Synthesize));
    let s = synthesize(&t, &names(&["only"]), None, &vec![], 0);
    assert!(matches!(l.step(LoopEvent::Synthesized(s)), LoopAction::EmitAndWatch(_)));
    assert_eq!(l.phase, Phase::Running);
    assert!(matches!(l.step(LoopEvent::PropertyChanged { window: ROOT, atom: UNKNOWN_ATOM }), LoopAction::Wait));
    assert_eq!(l.phase, Phase::Running);
    assert!(matches!(l.step(LoopEvent::PropertyChanged { window: ROOT, atom: t.active_window }), LoopAction::Synthesize));
}

#[test]
fn scenario_failed_query_terminates() {
    let t = table();
    let mut l = ChangeLoop::new(t, vec![ROOT]);
    assert!(matches!(l.step(LoopEvent::Started), LoopAction::Synthesize));
    assert!(matches!(l.step(LoopEvent::Synthesized(Err(SynthesisError::Transport))), LoopAction::Terminate));
    assert_eq!(l.phase, Phase::Fatal);
    assert!(matches!(l.step(LoopEvent::PropertyChanged { window: ROOT, atom: t.active_window }), LoopAction::Terminate));
    let s = synthesize(&t, &names(&["only"]), None, &vec![], 0);
    assert!(matches!(l.step(LoopEvent::Synthesized(s)), LoopAction::Terminate));
}

#[test]
fn failed_pass_while_running_terminates() {
    let t = table();
    let mut l = ChangeLoop::new(t, vec![ROOT]);
    l.step(LoopEvent::Started);
    let s = synthesize(&t, &names(&["only"]), None, &vec![], 0);
    l.step(LoopEvent::Synthesized(s));
    assert!(matches!(l.step(LoopEvent::PropertyChanged { window: ROOT, atom: t.current_desktop }), LoopAction::Synthesize));
    let bad = synthesize(&t, &names(&["only"]), None, &vec![client(W1, 3, vec![], "x")], 0);
    assert!(matches!(l.step(LoopEvent::Synthesized(bad)), LoopAction::Terminate));
    assert_eq!(l.phase, Phase::Fatal);
}

#[test]
fn transport_failure_while_waiting_terminates() {
    let t = table();
    let mut l = ChangeLoop::new(t, vec![ROOT]);
    l.step(LoopEvent::Started);
    let s = synthesize(&t, &names(&["only"]), None, &vec![], 0);
    l.step(LoopEvent::Synthesized(s));
    assert!(matches!(l.step(LoopEvent::TransportFailed), LoopAction::Terminate));
    assert_eq!(l.phase, Phase::Fatal);
}

#[test]
fn unwatched_window_does_not_synthesize() {
    let t = table();
    let mut l = ChangeLoop::new(t, vec![ROOT]);
    l.step(LoopEvent::Started);
    let s = synthesize(&t, &names(&["only"]), None, &vec![], 0);
    l.step(LoopEvent::Synthesized(s));
    assert!(matches!(l.step(LoopEvent::PropertyChanged { window: W1, atom: t.active_window }), LoopAction::Wait));
    assert!(matches!(l.step(LoopEvent::Other), LoopAction::Wait));
    assert_eq!(l.phase, Phase::Running);
}

#[test]
fn running_snapshot_is_emitted() {
    let t = table();
    let mut l = ChangeLoop::new(t, vec![ROOT]);
    l.step(LoopEvent::Started);
    let s = synthesize(&t, &names(&["only"]), None, &vec![], 0);
    l.step(LoopEvent::Synthesized(s));
    let s = synthesize(&t, &names(&["only"]), None, &vec![client(W1, 0, vec![], "x")], 0);
    match l.step(LoopEvent::Synthesized(s)) {
        LoopAction::Emit(snapshot) => assert_eq!(snapshot.desktops[0].windows[0].resource_id, W1),
        other => panic!("unexpected action {:?}", other),
    }
}

#[test]
fn every_interesting_atom_triggers() {
    let t = table();
    for atom in [t.active_window, t.current_desktop, t.client_list_stacking, t.close_window, t.showing_desktop] {
        assert!(t.is_interesting_root_property_change(atom));
    }
    for atom in [t.state_fullscreen, UNKNOWN_ATOM, 0] {
        assert!(!t.is_interesting_root_property_change(atom));
    }
}

#[test]
fn classification_table() {
    let t = table();
    let expected = [
        (t.state_modal, WindowState::Modal),
        (t.state_sticky, WindowState::Sticky),
        (t.state_maximized_vert, WindowState::MaximizedVert),
        (t.state_maximized_horz, WindowState::MaximizedHorz),
        (t.state_shaded, WindowState::Shaded),
        (t.state_skip_taskbar, WindowState::SkipTaskbar),
        (t.state_skip_pager, WindowState::SkipPager),
        (t.state_hidden, WindowState::Hidden),
        (t.state_fullscreen, WindowState::Fullscreen),
        (t.state_above, WindowState::Above),
        (t.state_below, WindowState::Below),
        (t.state_demands_attention, WindowState::DemandsAttention),
    ];
    for (atom, flag) in expected {
        assert_eq!(t.classify_window_state(atom), Some(flag));
        assert_eq!(t.classify_window_state(atom), Some(flag));
    }
    assert_eq!(t.classify_window_state(UNKNOWN_ATOM), None);
    assert_eq!(t.classify_window_state(t.active_window), None);
}

#[test]
fn unknown_atoms_are_dropped_in_order() {
    let t = table();
    let raw = vec![UNKNOWN_ATOM, t.state_above, 0, t.state_sticky, t.state_above];
    assert_eq!(classify_states(&t, &raw), vec![WindowState::Above, WindowState::Sticky, WindowState::Above]);
    assert!(classify_states(&t, &vec![]).is_empty());
}

#[test]
fn windows_keep_client_list_order() {
    let t = table();
    let clients = vec![
        client(3, 0, vec![], "c"),
        client(1, 1, vec![t.state_hidden], "a"),
        client(2, 0, vec![t.state_modal, t.state_below], "b"),
    ];
    let s = synthesize(&t, &names(&["x", "y"]), Some(2), &clients, 0).unwrap();
    let ids0: Vec<u32> = s.desktops[0].windows.iter().map(|w| w.resource_id).collect();
    let ids1: Vec<u32> = s.desktops[1].windows.iter().map(|w| w.resource_id).collect();
    assert_eq!(ids0, vec![3, 2]);
    assert_eq!(ids1, vec![1]);
    for d in &s.desktops {
        for w in &d.windows {
            assert_eq!(w.desktop_id, d.id);
        }
    }
    let a = s.active_window.as_ref().unwrap();
    assert!(same_window(a, &s.desktops[0].windows[1]));
    assert_eq!(a.states, vec![WindowState::Modal, WindowState::Below]);
}

#[test]
fn resynthesis_is_structurally_equal() {
    let t = table();
    let clients = vec![client(W1, 1, vec![t.state_fullscreen], "a"), client(W2, 0, vec![t.state_sticky], "b")];
    let first = synthesize(&t, &names(&["main", "web"]), Some(W2), &clients, 1).unwrap();
    let second = synthesize(&t, &names(&["main", "web"]), Some(W2), &clients, 1).unwrap();
    assert!(same_state(&first, &second));
}

#[test]
fn active_handle_not_listed_gives_none() {
    let t = table();
    let s = synthesize(&t, &names(&["main"]), Some(W2), &vec![client(W1, 0, vec![], "a")], 0).unwrap();
    assert!(s.active_window.is_none());
}

#[test]
fn zero_active_handle_means_none() {
    assert_eq!(active_handle(0), None);
    assert_eq!(active_handle(W1), Some(W1));
}

#[test]
fn watched_roots() {
    assert!(is_watched(&vec![1, ROOT], ROOT));
    assert!(!is_watched(&vec![1, ROOT], 2));
    assert!(!is_watched(&vec![], ROOT));
}

#[test]
fn window_from_reply_and_duplicate() {
    let t = table();
    let w = make_window(&t, &client(W1, 2, vec![t.state_shaded, UNKNOWN_ATOM, t.state_skip_pager], "term"));
    assert_eq!(w.resource_id, W1);
    assert_eq!(w.desktop_id, 2);
    assert_eq!(w.name, "term");
    assert_eq!(w.states, vec![WindowState::Shaded, WindowState::SkipPager]);
    assert!(same_window(&w.duplicate(), &w));
}
