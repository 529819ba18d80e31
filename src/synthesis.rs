use vstd::prelude::*;
use crate::atoms::AtomTable;
use crate::model::{Desktop, DesktopView, State, StateView, Window, WindowState, WindowView};

verus! {

/// The answers to the three per-window queries for one client window.
#[derive(Debug)]
pub struct ClientReply {
    pub resource_id: u32,
    pub desktop_id: u32,
    pub raw_states: Vec<u32>,
    pub name: String,
}

/// The mathematical value of a [`ClientReply`].
pub struct ClientReplyView {
    pub resource_id: u32,
    pub desktop_id: u32,
    pub raw_states: Seq<u32>,
    pub name: Seq<char>,
}

impl View for ClientReply {
    type V = ClientReplyView;

    open spec fn view(&self) -> ClientReplyView {
        ClientReplyView {
            resource_id: self.resource_id,
            desktop_id: self.desktop_id,
            raw_states: self.raw_states@,
            name: self.name@,
        }
    }
}

/// Why one synthesis pass produced no snapshot.
#[derive(Clone, Copy, Debug, PartialEq, Eq, Structural)]
pub enum SynthesisError {
    /// A query failed: the connection was lost, the server refused the request,
    /// or the reply was malformed.
    Transport,
    /// A client window names a desktop that the desktop list does not hold.
    UnknownWindowDesktop { resource_id: u32, desktop_id: u32 },
    /// The current desktop is not one of the listed desktops.
    UnknownCurrentDesktop { desktop_id: u32 },
}

/// The flags of a raw state-atom list, in query order, unknown atoms dropped.
pub open spec fn classify_all(t: AtomTable, raw: Seq<u32>) -> Seq<WindowState> {
    raw.filter_map(|a: u32| t.classify(a))
}

/// The window that one client's replies describe.
pub open spec fn window_of(t: AtomTable, c: ClientReplyView) -> WindowView {
    WindowView {
        resource_id: c.resource_id,
        name: c.name,
        desktop_id: c.desktop_id,
        states: classify_all(t, c.raw_states),
    }
}

/// The windows of a client list, in client-list order.
pub open spec fn windows_of(t: AtomTable, clients: Seq<ClientReplyView>) -> Seq<WindowView> {
    clients.map_values(|c: ClientReplyView| window_of(t, c))
}

/// The windows of `ws` that name desktop `d`, in their order.
pub open spec fn on_desktop(ws: Seq<WindowView>, d: int) -> Seq<WindowView> {
    ws.filter(|w: WindowView| w.desktop_id as int == d)
}

/// The desktops built from the desktop names and the windows: desktop `i` has
/// the `i`-th name, id `i`, and the windows that name it.
pub open spec fn desktops_of(names: Seq<Seq<char>>, ws: Seq<WindowView>) -> Seq<DesktopView> {
    Seq::new(
        names.len(),
        |i: int| DesktopView { name: names[i], id: i as u32, windows: on_desktop(ws, i) },
    )
}

/// The last window of `ws` whose handle is `id`.
pub open spec fn last_with_id(ws: Seq<WindowView>, id: u32) -> Option<WindowView>
    decreases ws.len(),
{
    if ws.len() == 0 {
        None
    } else if ws.last().resource_id == id {
        Some(ws.last())
    } else {
        last_with_id(ws.drop_last(), id)
    }
}

/// The active window of a snapshot: the client whose handle is the active handle.
pub open spec fn active_of(ws: Seq<WindowView>, active: Option<u32>) -> Option<WindowView> {
    match active {
        Some(id) => last_with_id(ws, id),
        None => None,
    }
}

/// Whether the client names one of `n` desktops.
pub open spec fn desktop_known(c: ClientReplyView, n: int) -> bool {
    (c.desktop_id as int) < n
}

/// The views of the desktop names.
pub open spec fn names_view(names: Seq<String>) -> Seq<Seq<char>> {
    names.map_values(|s: String| s@)
}

/// The views of the client replies.
pub open spec fn clients_view(clients: Seq<ClientReply>) -> Seq<ClientReplyView> {
    clients.map_values(|c: ClientReply| c@)
}

/// The snapshot that consistent replies describe.
pub open spec fn state_of(
    t: AtomTable,
    names: Seq<Seq<char>>,
    active: Option<u32>,
    clients: Seq<ClientReplyView>,
    current: u32,
) -> StateView {
    StateView {
        desktops: desktops_of(names, windows_of(t, clients)),
        current_desktop_id: current,
        active_window: active_of(windows_of(t, clients), active),
    }
}

/// The outcome of one synthesis pass over the given replies: the first client
/// that names an unknown desktop fails it, then an unknown current desktop
/// fails it, and otherwise it yields [`state_of`].
pub open spec fn synthesis_outcome(
    t: AtomTable,
    names: Seq<Seq<char>>,
    active: Option<u32>,
    clients: Seq<ClientReplyView>,
    current: u32,
    r: Result<StateView, SynthesisError>,
) -> bool {
    let n = names.len() as int;
    match r {
        Ok(s) => (forall|i: int| 0 <= i < clients.len() ==> #[trigger] desktop_known(clients[i], n))
            && (current as int) < n && s == state_of(t, names, active, clients, current),
        Err(SynthesisError::UnknownWindowDesktop { resource_id, desktop_id }) => exists|i: int|
            0 <= i < clients.len() && !#[trigger] desktop_known(clients[i], n) && (forall|j: int|
                0 <= j < i ==> #[trigger] desktop_known(clients[j], n)) && resource_id
                == clients[i].resource_id && desktop_id == clients[i].desktop_id,
        Err(SynthesisError::UnknownCurrentDesktop { desktop_id }) => (forall|i: int|
            0 <= i < clients.len() ==> #[trigger] desktop_known(clients[i], n)) && (current as int)
            >= n && desktop_id == current,
        Err(SynthesisError::Transport) => false,
    }
}

proof fn lemma_on_desktop_push(ws: Seq<WindowView>, w: WindowView, d: int)
    ensures
        on_desktop(ws.push(w), d) == if w.desktop_id as int == d {
            on_desktop(ws, d).push(w)
        } else {
            on_desktop(ws, d)
        },
{
    ws.lemma_filter_push(w, |w: WindowView| w.desktop_id as int == d);
}

/// The handle of the active window, from the raw handle that the window manager
/// reports: zero is the protocol's "no window".
pub fn active_handle(raw: u32) -> (r: Option<u32>)
    ensures
        r == (if raw == 0 { None } else { Some(raw) }),
{
    if raw == 0 {
        None
    } else {
        Some(raw)
    }
}

/// The flags of a raw state-atom list, in query order; unknown atoms are dropped.
pub fn classify_states(atoms: &AtomTable, raw: &Vec<u32>) -> (r: Vec<WindowState>)
    ensures
        r@ == classify_all(*atoms, raw@),
{
    let mut r: Vec<WindowState> = Vec::new();
    let mut i: usize = 0;
    while i < raw.len()
        invariant
            i <= raw@.len(),
            r@ == classify_all(*atoms, raw@.take(i as int)),
        decreases raw@.len() - i,
    {
        let c = atoms.classify_window_state(raw[i]);
        proof {
            let f = |a: u32| atoms.classify(a);
            assert(raw@.take(i + 1).drop_last() =~= raw@.take(i as int));
            assert(raw@.take(i + 1).last() == raw@[i as int]);
            assert(raw@.take(i + 1).filter_map(f) == match f(raw@[i as int]) {
                Some(s) => raw@.take(i as int).filter_map(f) + seq![s],
                None => raw@.take(i as int).filter_map(f),
            });
        }
        match c {
            Some(s) => {
                r.push(s);
                assert(r@ =~= classify_all(*atoms, raw@.take(i as int)) + seq![s]);
            },
            None => {},
        }
        i = i + 1;
    }
    assert(raw@.take(raw@.len() as int) =~= raw@);
    r
}

/// The window that one client's replies describe.
pub fn make_window(atoms: &AtomTable, client: &ClientReply) -> (r: Window)
    ensures
        r@ == window_of(*atoms, client@),
{
    Window {
        resource_id: client.resource_id,
        name: client.name.clone(),
        desktop_id: client.desktop_id,
        states: classify_states(atoms, &client.raw_states),
    }
}

fn initial_desktops(desktop_names: &Vec<String>) -> (r: Vec<Desktop>)
    requires
        desktop_names@.len() <= u32::MAX,
    ensures
        r@.len() == desktop_names@.len(),
        forall|d: int|
            0 <= d < r@.len() ==> #[trigger] r@[d]@ == (DesktopView {
                name: desktop_names@[d]@,
                id: d as u32,
                windows: Seq::empty(),
            }),
{
    let mut r: Vec<Desktop> = Vec::new();
    let mut i: usize = 0;
    while i < desktop_names.len()
        invariant
            desktop_names@.len() <= u32::MAX,
            i <= desktop_names@.len(),
            r@.len() == i,
            forall|d: int|
                0 <= d < i ==> #[trigger] r@[d]@ == (DesktopView {
                    name: desktop_names@[d]@,
                    id: d as u32,
                    windows: Seq::empty(),
                }),
        decreases desktop_names@.len() - i,
    {
        let desktop = Desktop { name: desktop_names[i].clone(), id: i as u32, windows: Vec::new() };
        assert(desktop@.windows =~= Seq::empty());
        r.push(desktop);
        i = i + 1;
    }
    r
}

/// Assembles one snapshot from the replies to the snapshot's queries: the
/// desktop names, the active window (`None` where there is none), the
/// per-window replies in client-list order, and the current desktop.
///
/// Each window goes to the desktop it names, in client-list order, and the
/// active window is a copy of the client whose handle it is. A client that
/// names an unknown desktop, or an unknown current desktop, fails the pass.
pub fn synthesize(
    atoms: &AtomTable,
    desktop_names: &Vec<String>,
    active: Option<u32>,
    clients: &Vec<ClientReply>,
    current_desktop: u32,
) -> (r: Result<State, SynthesisError>)
    requires
        desktop_names@.len() <= u32::MAX,
    ensures
        synthesis_outcome(
            *atoms,
            names_view(desktop_names@),
            active,
            clients_view(clients@),
            current_desktop,
            match r {
                Ok(s) => Ok(s@),
                Err(e) => Err(e),
            },
        ),
        r matches Ok(s) ==> s@.windows_on_own_desktop() && s@.current_desktop_listed()
            && s@.active_window_listed(),
{
    let ghost names = names_view(desktop_names@);
    let ghost cs = clients_view(clients@);
    let ghost n = desktop_names@.len() as int;
    let mut desktops = initial_desktops(desktop_names);
    proof {
        assert(cs.take(0) =~= Seq::<ClientReplyView>::empty());
        assert(windows_of(*atoms, cs.take(0)) =~= Seq::<WindowView>::empty());
        assert forall|d: int| 0 <= d < n implies on_desktop(Seq::<WindowView>::empty(), d)
            =~= Seq::<WindowView>::empty() by {
            reveal(Seq::filter);
        }
    }
    let mut active_window: Option<Window> = None;
    let mut j: usize = 0;
    while j < clients.len()
        invariant
            desktop_names@.len() <= u32::MAX,
            names == names_view(desktop_names@),
            cs == clients_view(clients@),
            n == desktop_names@.len(),
            j <= clients@.len(),
            desktops@.len() == n,
            forall|i: int| 0 <= i < j ==> #[trigger] desktop_known(cs[i], n),
            forall|d: int|
                0 <= d < n ==> #[trigger] desktops@[d]@ == (DesktopView {
                    name: desktop_names@[d]@,
                    id: d as u32,
                    windows: on_desktop(windows_of(*atoms, cs.take(j as int)), d),
                }),
            match active_window {
                Some(w) => Some(w@),
                None => None,
            } == active_of(windows_of(*atoms, cs.take(j as int)), active),
        decreases clients@.len() - j,
    {
        let w = make_window(atoms, &clients[j]);
        let ghost wv = w@;
        let d = w.desktop_id as usize;
        if d >= desktops.len() {
            proof {
                assert(cs[j as int] == clients@[j as int]@);
                assert(!desktop_known(cs[j as int], n));
            }
            return Err(SynthesisError::UnknownWindowDesktop {
                resource_id: w.resource_id,
                desktop_id: w.desktop_id,
            });
        }
        proof {
            let prev = windows_of(*atoms, cs.take(j as int));
            assert(cs.take(j + 1) =~= cs.take(j as int).push(cs[j as int]));
            assert(windows_of(*atoms, cs.take(j + 1)) =~= prev.push(wv));
            assert(windows_of(*atoms, cs.take(j + 1)).drop_last() =~= prev);
            assert forall|e: int| 0 <= e < n implies #[trigger] on_desktop(
                windows_of(*atoms, cs.take(j + 1)),
                e,
            ) == if wv.desktop_id as int == e {
                on_desktop(prev, e).push(wv)
            } else {
                on_desktop(prev, e)
            } by {
                lemma_on_desktop_push(prev, wv, e);
            }
        }
        match active {
            Some(id) => {
                if id == w.resource_id {
                    active_window = Some(w.duplicate());
                }
            },
            None => {},
        }
        let ghost before = desktops@;
        desktops[d].windows.push(w);
        proof {
            assert(desktops@[d as int]@.windows =~= before[d as int]@.windows.push(wv));
            assert forall|e: int| 0 <= e < n implies #[trigger] desktops@[e]@ == (DesktopView {
                name: desktop_names@[e]@,
                id: e as u32,
                windows: on_desktop(windows_of(*atoms, cs.take(j + 1)), e),
            }) by {
                if e != d {
                    assert(desktops@[e] == before[e]);
                }
            }
        }
        j = j + 1;
    }
    proof {
        assert(cs.take(j as int) =~= cs);
    }
    if current_desktop as usize >= desktops.len() {
        return Err(SynthesisError::UnknownCurrentDesktop { desktop_id: current_desktop });
    }
    let state = State { desktops, current_desktop_id: current_desktop, active_window };
    proof {
        let s = state_of(*atoms, names, active, cs, current_desktop);
        assert(state@.desktops =~= s.desktops);
        lemma_snapshot_consistent(*atoms, names, active, cs, current_desktop);
    }
    Ok(state)
}

/// No two windows of `ws` share a handle.
pub open spec fn distinct_ids(ws: Seq<WindowView>) -> bool {
    forall|i: int, j: int|
        0 <= i < j < ws.len() ==> #[trigger] ws[i].resource_id != #[trigger] ws[j].resource_id
}

proof fn lemma_on_desktop_members(ws: Seq<WindowView>, d: int)
    ensures
        forall|k: int|
            0 <= k < on_desktop(ws, d).len() ==> (#[trigger] on_desktop(ws, d)[k]).desktop_id as int
                == d,
        forall|i: int|
            0 <= i < ws.len() && ws[i].desktop_id as int == d ==> #[trigger] on_desktop(
                ws,
                d,
            ).contains(ws[i]),
        forall|w: WindowView| #[trigger] on_desktop(ws, d).contains(w) ==> ws.contains(w),
{
    let p = |w: WindowView| w.desktop_id as int == d;
    assert forall|k: int| 0 <= k < on_desktop(ws, d).len() implies (#[trigger] on_desktop(
        ws,
        d,
    )[k]).desktop_id as int == d by {
        ws.lemma_filter_pred(p, k);
    }
    assert forall|i: int| 0 <= i < ws.len() && ws[i].desktop_id as int == d implies #[trigger] on_desktop(
        ws,
        d,
    ).contains(ws[i]) by {
        ws.lemma_filter_contains(p, i);
    }
    assert forall|w: WindowView| #[trigger] on_desktop(ws, d).contains(w) implies ws.contains(w) by {
        ws.lemma_filter_contains_rev(p, w);
    }
}

proof fn lemma_on_desktop_distinct(ws: Seq<WindowView>, d: int)
    requires
        distinct_ids(ws),
    ensures
        distinct_ids(on_desktop(ws, d)),
    decreases ws.len(),
{
    if ws.len() > 0 {
        let prev = ws.drop_last();
        let last = ws.last();
        assert(prev.push(last) =~= ws);
        assert(distinct_ids(prev)) by {
            assert forall|i: int, j: int| 0 <= i < j < prev.len() implies #[trigger] prev[i].resource_id
                != #[trigger] prev[j].resource_id by {
                assert(prev[i] == ws[i] && prev[j] == ws[j]);
            }
        }
        lemma_on_desktop_distinct(prev, d);
        lemma_on_desktop_push(prev, last, d);
        if last.desktop_id as int == d {
            let f = on_desktop(prev, d);
            lemma_on_desktop_members(prev, d);
            assert forall|i: int, j: int| 0 <= i < j < f.push(last).len() implies #[trigger] f.push(
                last,
            )[i].resource_id != #[trigger] f.push(last)[j].resource_id by {
                if j == f.len() {
                    assert(f.contains(f[i]));
                    let m = choose|m: int| 0 <= m < prev.len() && prev[m] == f[i];
                    assert(ws[m] == prev[m]);
                    assert(ws[ws.len() - 1] == last);
                }
            }
        }
    }
}

proof fn lemma_last_with_id(ws: Seq<WindowView>, id: u32)
    ensures
        last_with_id(ws, id) matches Some(a) ==> ws.contains(a) && a.resource_id == id,
    decreases ws.len(),
{
    if ws.len() > 0 {
        lemma_last_with_id(ws.drop_last(), id);
        if ws.last().resource_id != id {
            if let Some(a) = last_with_id(ws.drop_last(), id) {
                let m = choose|m: int| 0 <= m < ws.drop_last().len() && ws.drop_last()[m] == a;
                assert(ws[m] == a);
            }
        } else {
            assert(ws[ws.len() - 1] == ws.last());
        }
    }
}

/// A snapshot built from replies that synthesis accepts is consistent: every
/// window sits in the desktop it names, the current desktop is listed, and the
/// active window, when there is one, equals field for field a window of some
/// desktop and carries the active handle.
pub proof fn lemma_snapshot_consistent(
    t: AtomTable,
    names: Seq<Seq<char>>,
    active: Option<u32>,
    clients: Seq<ClientReplyView>,
    current: u32,
)
    requires
        names.len() <= u32::MAX,
        forall|i: int| 0 <= i < clients.len() ==> #[trigger] desktop_known(clients[i], names.len() as int),
        (current as int) < names.len(),
    ensures
        state_of(t, names, active, clients, current).windows_on_own_desktop(),
        state_of(t, names, active, clients, current).current_desktop_listed(),
        state_of(t, names, active, clients, current).active_window_listed(),
        state_of(t, names, active, clients, current).active_window matches Some(a) ==> active == Some(
            a.resource_id,
        ),
{
    let s = state_of(t, names, active, clients, current);
    let ws = windows_of(t, clients);
    assert forall|d: int, k: int|
        0 <= d < s.desktops.len() && 0 <= k < s.desktops[d].windows.len() implies #[trigger] s.desktops[d].windows[k].desktop_id
        == s.desktops[d].id by {
        lemma_on_desktop_members(ws, d);
        assert(s.desktops[d].windows[k] == on_desktop(ws, d)[k]);
    }
    assert(s.desktops[current as int].id == current);
    if let Some(id) = active {
        lemma_last_with_id(ws, id);
        if let Some(a) = s.active_window {
            let i = choose|i: int| 0 <= i < ws.len() && ws[i] == a;
            assert(desktop_known(clients[i], names.len() as int));
            let d = a.desktop_id as int;
            lemma_on_desktop_members(ws, d);
            assert(on_desktop(ws, d).contains(ws[i]));
            let k = choose|k: int| 0 <= k < on_desktop(ws, d).len() && on_desktop(ws, d)[k] == a;
            assert(s.desktops[d].windows[k] == a);
        }
    }
}

/// Where the client handles are distinct, the active window's handle belongs
/// to exactly one window across all desktops of the snapshot.
pub proof fn lemma_active_window_unique(
    t: AtomTable,
    names: Seq<Seq<char>>,
    active: Option<u32>,
    clients: Seq<ClientReplyView>,
    current: u32,
)
    requires
        names.len() <= u32::MAX,
        forall|i: int| 0 <= i < clients.len() ==> #[trigger] desktop_known(clients[i], names.len() as int),
        (current as int) < names.len(),
        forall|i: int, j: int|
            0 <= i < j < clients.len() ==> #[trigger] clients[i].resource_id
                != #[trigger] clients[j].resource_id,
    ensures
        state_of(t, names, active, clients, current).active_window matches Some(a) ==> forall|
            d1: int,
            k1: int,
            d2: int,
            k2: int,
        |
            0 <= d1 < names.len() && 0 <= k1 < state_of(
                t,
                names,
                active,
                clients,
                current,
            ).desktops[d1].windows.len() && 0 <= d2 < names.len() && 0 <= k2 < state_of(
                t,
                names,
                active,
                clients,
                current,
            ).desktops[d2].windows.len() && (#[trigger] state_of(
                t,
                names,
                active,
                clients,
                current,
            ).desktops[d1].windows[k1]).resource_id == a.resource_id && (#[trigger] state_of(
                t,
                names,
                active,
                clients,
                current,
            ).desktops[d2].windows[k2]).resource_id == a.resource_id ==> d1 == d2 && k1 == k2,
{
    let s = state_of(t, names, active, clients, current);
    let ws = windows_of(t, clients);
    assert(distinct_ids(ws)) by {
        assert forall|i: int, j: int| 0 <= i < j < ws.len() implies #[trigger] ws[i].resource_id
            != #[trigger] ws[j].resource_id by {
            assert(clients[i].resource_id != clients[j].resource_id);
        }
    }
    if let Some(a) = s.active_window {
        assert forall|d1: int, k1: int, d2: int, k2: int|
            0 <= d1 < names.len() && 0 <= k1 < s.desktops[d1].windows.len() && 0 <= d2
                < names.len() && 0 <= k2 < s.desktops[d2].windows.len() && (#[trigger] s.desktops[d1].windows[k1]).resource_id
                == a.resource_id && (#[trigger] s.desktops[d2].windows[k2]).resource_id
                == a.resource_id implies d1 == d2 && k1 == k2 by {
            let w1 = s.desktops[d1].windows[k1];
            let w2 = s.desktops[d2].windows[k2];
            lemma_on_desktop_members(ws, d1);
            lemma_on_desktop_members(ws, d2);
            assert(on_desktop(ws, d1).contains(w1));
            assert(on_desktop(ws, d2).contains(w2));
            let i1 = choose|i: int| 0 <= i < ws.len() && ws[i] == w1;
            let i2 = choose|i: int| 0 <= i < ws.len() && ws[i] == w2;
            assert(i1 == i2);
            assert(d1 == d2);
            lemma_on_desktop_distinct(ws, d1);
        }
    }
}

/// Synthesis is a function of the replies: two passes over the same window
/// manager state have the same outcome, the same snapshot down to desktop
/// order, window order and flags, or the same error.
pub proof fn lemma_synthesis_deterministic(
    t: AtomTable,
    names: Seq<Seq<char>>,
    active: Option<u32>,
    clients: Seq<ClientReplyView>,
    current: u32,
    r1: Result<StateView, SynthesisError>,
    r2: Result<StateView, SynthesisError>,
)
    requires
        synthesis_outcome(t, names, active, clients, current, r1),
        synthesis_outcome(t, names, active, clients, current, r2),
    ensures
        r1 == r2,
{
    let n = names.len() as int;
    if let Err(SynthesisError::UnknownWindowDesktop { .. }) = r1 {
        if let Err(SynthesisError::UnknownWindowDesktop { .. }) = r2 {
            let i1 = choose|i: int|
                0 <= i < clients.len() && !#[trigger] desktop_known(clients[i], n) && (forall|j: int|
                    0 <= j < i ==> #[trigger] desktop_known(clients[j], n)) && r1 == Err::<StateView, SynthesisError>(
                    SynthesisError::UnknownWindowDesktop {
                        resource_id: clients[i].resource_id,
                        desktop_id: clients[i].desktop_id,
                    },
                );
            let i2 = choose|i: int|
                0 <= i < clients.len() && !#[trigger] desktop_known(clients[i], n) && (forall|j: int|
                    0 <= j < i ==> #[trigger] desktop_known(clients[j], n)) && r2 == Err::<StateView, SynthesisError>(
                    SynthesisError::UnknownWindowDesktop {
                        resource_id: clients[i].resource_id,
                        desktop_id: clients[i].desktop_id,
                    },
                );
            assert(i1 == i2);
        }
    }
}

} // verus!
