use vstd::prelude::*;

verus! {

/// A state flag that a window manager may set on a window.
#[derive(Clone, Copy, Debug, PartialEq, Eq, Structural)]
pub enum WindowState {
    Modal,
    Sticky,
    MaximizedVert,
    MaximizedHorz,
    Shaded,
    SkipTaskbar,
    SkipPager,
    Hidden,
    Fullscreen,
    Above,
    Below,
    DemandsAttention,
}

/// A managed window, as it stands in one snapshot.
#[derive(Debug)]
pub struct Window {
    pub resource_id: u32,
    pub name: String,
    pub desktop_id: u32,
    pub states: Vec<WindowState>,
}

/// The mathematical value of a [`Window`].
pub struct WindowView {
    pub resource_id: u32,
    pub name: Seq<char>,
    pub desktop_id: u32,
    pub states: Seq<WindowState>,
}

impl View for Window {
    type V = WindowView;

    open spec fn view(&self) -> WindowView {
        WindowView {
            resource_id: self.resource_id,
            name: self.name@,
            desktop_id: self.desktop_id,
            states: self.states@,
        }
    }
}

impl Window {
    /// A field-for-field copy of this window.
    pub fn duplicate(&self) -> (r: Window)
        ensures
            r@ == self@,
    {
        let mut states: Vec<WindowState> = Vec::new();
        let mut i: usize = 0;
        while i < self.states.len()
            invariant
                i <= self.states@.len(),
                states@ == self.states@.subrange(0, i as int),
            decreases self.states@.len() - i,
        {
            states.push(self.states[i]);
            i = i + 1;
            assert(states@ =~= self.states@.subrange(0, i as int));
        }
        assert(states@ =~= self.states@);
        Window {
            resource_id: self.resource_id,
            name: self.name.clone(),
            desktop_id: self.desktop_id,
            states,
        }
    }
}

/// One desktop and the windows on it, in client-list order.
#[derive(Debug)]
pub struct Desktop {
    pub name: String,
    pub id: u32,
    pub windows: Vec<Window>,
}

/// The mathematical value of a [`Desktop`].
pub struct DesktopView {
    pub name: Seq<char>,
    pub id: u32,
    pub windows: Seq<WindowView>,
}

impl View for Desktop {
    type V = DesktopView;

    open spec fn view(&self) -> DesktopView {
        DesktopView {
            name: self.name@,
            id: self.id,
            windows: self.windows@.map_values(|w: Window| w@),
        }
    }
}

/// One snapshot of the window manager's state.
#[derive(Debug)]
pub struct State {
    pub desktops: Vec<Desktop>,
    pub current_desktop_id: u32,
    pub active_window: Option<Window>,
}

/// The mathematical value of a [`State`].
pub struct StateView {
    pub desktops: Seq<DesktopView>,
    pub current_desktop_id: u32,
    pub active_window: Option<WindowView>,
}

impl View for State {
    type V = StateView;

    open spec fn view(&self) -> StateView {
        StateView {
            desktops: self.desktops@.map_values(|d: Desktop| d@),
            current_desktop_id: self.current_desktop_id,
            active_window: match self.active_window {
                Some(w) => Some(w@),
                None => None,
            },
        }
    }
}

impl StateView {
    /// Every window sits in the desktop that it names.
    pub open spec fn windows_on_own_desktop(self) -> bool {
        forall|d: int, k: int|
            0 <= d < self.desktops.len() && 0 <= k < self.desktops[d].windows.len()
                ==> #[trigger] self.desktops[d].windows[k].desktop_id == self.desktops[d].id
    }

    /// The active window, when there is one, equals a window of some desktop.
    pub open spec fn active_window_listed(self) -> bool {
        match self.active_window {
            Some(a) => exists|d: int, k: int|
                0 <= d < self.desktops.len() && 0 <= k < self.desktops[d].windows.len()
                    && #[trigger] self.desktops[d].windows[k] == a,
            None => true,
        }
    }

    /// The current desktop is one of the listed desktops.
    pub open spec fn current_desktop_listed(self) -> bool {
        exists|d: int| 0 <= d < self.desktops.len() && #[trigger] self.desktops[d].id == self.current_desktop_id
    }
}

} // verus!
