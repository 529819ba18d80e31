use vstd::prelude::*;
use crate::model::WindowState;

verus! {

/// The atom identifiers that one connection resolved at setup.
///
/// Atoms are server-specific integers, so the table is built once per
/// connection and then only read.
#[derive(Clone, Copy, Debug, PartialEq, Eq, Structural)]
pub struct AtomTable {
    pub state_modal: u32,
    pub state_sticky: u32,
    pub state_maximized_vert: u32,
    pub state_maximized_horz: u32,
    pub state_shaded: u32,
    pub state_skip_taskbar: u32,
    pub state_skip_pager: u32,
    pub state_hidden: u32,
    pub state_fullscreen: u32,
    pub state_above: u32,
    pub state_below: u32,
    pub state_demands_attention: u32,
    pub active_window: u32,
    pub current_desktop: u32,
    pub client_list_stacking: u32,
    pub close_window: u32,
    pub showing_desktop: u32,
}

/// The flag of the first entry of `entries`, from index `i` on, whose atom is `atom`.
pub open spec fn lookup_from(entries: Seq<(u32, WindowState)>, atom: u32, i: int) -> Option<WindowState>
    decreases entries.len() - i,
{
    if i < 0 || i >= entries.len() {
        None
    } else if entries[i].0 == atom {
        Some(entries[i].1)
    } else {
        lookup_from(entries, atom, i + 1)
    }
}

impl AtomTable {
    /// The window-state table: each state atom with its flag, in a fixed order.
    pub open spec fn state_table(self) -> Seq<(u32, WindowState)> {
        seq![
            (self.state_modal, WindowState::Modal),
            (self.state_sticky, WindowState::Sticky),
            (self.state_maximized_vert, WindowState::MaximizedVert),
            (self.state_maximized_horz, WindowState::MaximizedHorz),
            (self.state_shaded, WindowState::Shaded),
            (self.state_skip_taskbar, WindowState::SkipTaskbar),
            (self.state_skip_pager, WindowState::SkipPager),
            (self.state_hidden, WindowState::Hidden),
            (self.state_fullscreen, WindowState::Fullscreen),
            (self.state_above, WindowState::Above),
            (self.state_below, WindowState::Below),
            (self.state_demands_attention, WindowState::DemandsAttention),
        ]
    }

    /// The flag that `atom` stands for, if the table lists it.
    pub open spec fn classify(self, atom: u32) -> Option<WindowState> {
        lookup_from(self.state_table(), atom, 0)
    }

    /// Whether a change of the root-window property `atom` calls for a new snapshot.
    pub open spec fn interesting(self, atom: u32) -> bool {
        atom == self.active_window || atom == self.current_desktop || atom
            == self.client_list_stacking || atom == self.close_window || atom
            == self.showing_desktop
    }

    /// The window-state table as a vector.
    pub fn state_entries(&self) -> (r: Vec<(u32, WindowState)>)
        ensures
            r@ == self.state_table(),
    {
        let r = vec![
            (self.state_modal, WindowState::Modal),
            (self.state_sticky, WindowState::Sticky),
            (self.state_maximized_vert, WindowState::MaximizedVert),
            (self.state_maximized_horz, WindowState::MaximizedHorz),
            (self.state_shaded, WindowState::Shaded),
            (self.state_skip_taskbar, WindowState::SkipTaskbar),
            (self.state_skip_pager, WindowState::SkipPager),
            (self.state_hidden, WindowState::Hidden),
            (self.state_fullscreen, WindowState::Fullscreen),
            (self.state_above, WindowState::Above),
            (self.state_below, WindowState::Below),
            (self.state_demands_attention, WindowState::DemandsAttention),
        ];
        assert(r@ =~= self.state_table());
        r
    }

    /// Maps a raw window-state atom to its flag; `None` for an atom outside the table.
    pub fn classify_window_state(&self, atom: u32) -> (r: Option<WindowState>)
        ensures
            r == self.classify(atom),
    {
        let entries = self.state_entries();
        let mut i: usize = 0;
        while i < entries.len()
            invariant
                entries@ == self.state_table(),
                i <= entries@.len(),
                lookup_from(entries@, atom, 0) == lookup_from(entries@, atom, i as int),
            decreases entries@.len() - i,
        {
            let (a, s) = entries[i];
            if a == atom {
                return Some(s);
            }
            i = i + 1;
        }
        None
    }

    /// Whether a property-change notification for `atom` on a root window
    /// calls for a new snapshot.
    pub fn is_interesting_root_property_change(&self, atom: u32) -> (r: bool)
        ensures
            r == self.interesting(atom),
    {
        atom == self.active_window || atom == self.current_desktop || atom
            == self.client_list_stacking || atom == self.close_window || atom
            == self.showing_desktop
    }
}

/// Classification is a function of the table and the atom: an atom that no
/// entry of the table names is never classified, and an atom that one names
/// is classified as the flag of the first entry naming it.
pub proof fn lemma_classify_total(t: AtomTable, atom: u32)
    ensures
        (forall|i: int| 0 <= i < t.state_table().len() ==> #[trigger] t.state_table()[i].0 != atom)
            ==> t.classify(atom) is None,
        forall|i: int|
            0 <= i < t.state_table().len() && #[trigger] t.state_table()[i].0 == atom && (forall|j: int|
                0 <= j < i ==> t.state_table()[j].0 != atom) ==> t.classify(atom) == Some(
                t.state_table()[i].1,
            ),
{
    let e = t.state_table();
    if forall|j: int| 0 <= j < e.len() ==> #[trigger] e[j].0 != atom {
        lemma_lookup_none(e, atom, 0);
    }
    assert forall|i: int|
        0 <= i < e.len() && #[trigger] e[i].0 == atom && (forall|j: int| 0 <= j < i ==> e[j].0 != atom)
        implies lookup_from(e, atom, 0) == Some(e[i].1)
    by {
        lemma_lookup_first(e, atom, 0, i);
    }
}

proof fn lemma_lookup_none(e: Seq<(u32, WindowState)>, atom: u32, k: int)
    requires
        0 <= k,
        forall|j: int| 0 <= j < e.len() ==> #[trigger] e[j].0 != atom,
    ensures
        lookup_from(e, atom, k) is None,
    decreases e.len() - k,
{
    if k < e.len() {
        lemma_lookup_none(e, atom, k + 1);
    }
}

proof fn lemma_lookup_first(e: Seq<(u32, WindowState)>, atom: u32, k: int, i: int)
    requires
        0 <= k <= i < e.len(),
        e[i].0 == atom,
        forall|j: int| 0 <= j < i ==> #[trigger] e[j].0 != atom,
    ensures
        lookup_from(e, atom, k) == Some(e[i].1),
    decreases i - k,
{
    if k < i {
        lemma_lookup_first(e, atom, k + 1, i);
    }
}

} // verus!
