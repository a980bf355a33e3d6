//! The typed snapshot of the daemon's state: displays, spaces and windows,
//! together with the pure lookups the planner and navigator run on it.

use vstd::prelude::*;
use vstd::string::StrSliceExecFns;
use crate::text::{label_for, parse_label_index, spec_label, spec_label_index, str_eq};

verus! {

/// One window, reduced to what reconciliation reads: its id, the OS index
/// of its owning space, and visibility.
pub struct Window {
    pub id: u32,
    pub space: u32,
    pub is_visible: bool,
}

/// One display.
pub struct Display {
    pub id: u32,
    pub uuid: String,
    pub index: u32,
    pub spaces: Vec<u32>,
}

/// One virtual desktop, with its OS-assigned index and user-assigned label.
pub struct Space {
    pub id: u32,
    pub uuid: String,
    pub index: u32,
    pub label: String,
    pub space_type: String,
    pub display: u32,
    pub windows: Vec<u32>,
    pub first_window: u32,
    pub last_window: u32,
    pub has_focus: bool,
    pub is_visible: bool,
    pub is_native_fullscreen: bool,
}

/// A snapshot: one round of queries against the daemon.
pub struct YabaiStates {
    pub spaces: Vec<Space>,
    pub displays: Vec<Display>,
    pub windows: Vec<Window>,
}

/// The persisted "recent label" cursor.
pub struct YabaictlStates {
    pub recent: u32,
}

/// A transient space the OS spawned for a fullscreen application: it has no
/// label and is marked native-fullscreen.
pub open spec fn spec_is_unlabeled_fullscreen(sp: Space) -> bool {
    sp.label@.len() == 0 && sp.is_native_fullscreen
}

/// The snapshot contains a space that signals that the canonical topology
/// must be restored first.
pub open spec fn spec_needs_restore(spaces: Seq<Space>) -> bool {
    exists|i: int| 0 <= i < spaces.len() && spec_is_unlabeled_fullscreen(#[trigger] spaces[i])
}

pub open spec fn spec_has_focused(spaces: Seq<Space>) -> bool {
    exists|i: int| 0 <= i < spaces.len() && (#[trigger] spaces[i]).has_focus
}

/// Position `k` holds the first focused space.
pub open spec fn spec_first_focused(spaces: Seq<Space>, k: int) -> bool {
    &&& 0 <= k < spaces.len()
    &&& spaces[k].has_focus
    &&& forall|j: int| 0 <= j < k ==> !(#[trigger] spaces[j]).has_focus
}

pub open spec fn spec_has_label(spaces: Seq<Space>, l: Seq<char>) -> bool {
    exists|i: int| 0 <= i < spaces.len() && (#[trigger] spaces[i]).label@ == l
}

/// Position `k` holds the first space labeled `l`.
pub open spec fn spec_first_with_label(spaces: Seq<Space>, l: Seq<char>, k: int) -> bool {
    &&& 0 <= k < spaces.len()
    &&& spaces[k].label@ == l
    &&& forall|j: int| 0 <= j < k ==> (#[trigger] spaces[j]).label@ != l
}

/// The first space labeled `l` exists and lists window `w`.
pub open spec fn spec_window_in_labeled_space(spaces: Seq<Space>, l: Seq<char>, w: u32) -> bool {
    exists|k: int| #[trigger] spec_first_with_label(spaces, l, k) && spaces[k].windows@.contains(w)
}

impl Space {
    /// Whether this space's window list holds `window_id`.
    pub fn find_window_id(&self, window_id: &u32) -> (r: Option<&u32>)
        ensures
            r is Some <==> self.windows@.contains(*window_id),
            r matches Some(w) ==> *w == *window_id,
    {
        let n = self.windows.len();
        let mut i: usize = 0;
        while i < n
            invariant
                0 <= i <= n,
                n == self.windows@.len(),
                forall|j: int| 0 <= j < i ==> self.windows@[j] != *window_id,
            decreases n - i,
        {
            if self.windows[i] == *window_id {
                return Some(&self.windows[i]);
            }
            i = i + 1;
        }
        None
    }

    /// The integer suffix of a label of the form `s<k>`.
    pub fn label_index(&self) -> (r: Option<u32>)
        ensures
            r == spec_label_index(self.label@),
    {
        parse_label_index(self.label.as_str())
    }
}

impl YabaiStates {
    pub fn num_spaces(&self) -> (r: u32)
        requires
            self.spaces@.len() <= u32::MAX,
        ensures
            r == self.spaces@.len(),
    {
        self.spaces.len() as u32
    }

    pub fn num_displays(&self) -> (r: u32)
        requires
            self.displays@.len() <= u32::MAX,
        ensures
            r == self.displays@.len(),
    {
        self.displays.len() as u32
    }

    /// The first space that has focus.
    pub fn focused_space(&self) -> (r: Option<&Space>)
        ensures
            r is Some <==> spec_has_focused(self.spaces@),
            r matches Some(f) ==> exists|k: int|
                #[trigger] spec_first_focused(self.spaces@, k) && *f == self.spaces@[k],
    {
        let n = self.spaces.len();
        let mut i: usize = 0;
        while i < n
            invariant
                0 <= i <= n,
                n == self.spaces@.len(),
                forall|j: int| 0 <= j < i ==> !(#[trigger] self.spaces@[j]).has_focus,
            decreases n - i,
        {
            if self.spaces[i].has_focus {
                assert(spec_first_focused(self.spaces@, i as int));
                return Some(&self.spaces[i]);
            }
            i = i + 1;
        }
        None
    }

    /// The first space carrying exactly the label `label`.
    pub fn find_space_by_label(&self, label: &str) -> (r: Option<&Space>)
        ensures
            r is Some <==> spec_has_label(self.spaces@, label@),
            r matches Some(f) ==> exists|k: int|
                #[trigger] spec_first_with_label(self.spaces@, label@, k) && *f == self.spaces@[k],
    {
        let n = self.spaces.len();
        let mut i: usize = 0;
        while i < n
            invariant
                0 <= i <= n,
                n == self.spaces@.len(),
                forall|j: int| 0 <= j < i ==> (#[trigger] self.spaces@[j]).label@ != label@,
            decreases n - i,
        {
            if str_eq(self.spaces[i].label.as_str(), label) {
                assert(spec_first_with_label(self.spaces@, label@, i as int));
                return Some(&self.spaces[i]);
            }
            i = i + 1;
        }
        None
    }

    /// The first unlabeled native-fullscreen space, if any: an application
    /// going fullscreen gets a transient space of its own.
    pub fn find_unlabeled_space(&self) -> (r: Option<&Space>)
        ensures
            r is Some <==> spec_needs_restore(self.spaces@),
            r matches Some(f) ==> spec_is_unlabeled_fullscreen(*f),
    {
        let n = self.spaces.len();
        let mut i: usize = 0;
        while i < n
            invariant
                0 <= i <= n,
                n == self.spaces@.len(),
                forall|j: int|
                    0 <= j < i ==> !spec_is_unlabeled_fullscreen(#[trigger] self.spaces@[j]),
            decreases n - i,
        {
            let sp = &self.spaces[i];
            if sp.label.as_str().unicode_len() == 0 && sp.is_native_fullscreen {
                return Some(sp);
            }
            i = i + 1;
        }
        None
    }

    /// The first space labeled `s<label_index>`.
    pub fn find_space_by_label_index(&self, label_index: u32) -> (r: Option<&Space>)
        ensures
            r is Some <==> spec_has_label(self.spaces@, spec_label(label_index)),
            r matches Some(f) ==> exists|k: int|
                #[trigger] spec_first_with_label(self.spaces@, spec_label(label_index), k) && *f
                    == self.spaces@[k],
    {
        let label = label_for(label_index);
        self.find_space_by_label(label.as_str())
    }

    /// Whether the first space labeled `space_label` lists `window_id`.
    pub fn find_window_id_in_space(&self, space_label: &str, window_id: &u32) -> (r: Option<&u32>)
        ensures
            r is Some <==> spec_window_in_labeled_space(self.spaces@, space_label@, *window_id),
            r matches Some(w) ==> *w == *window_id,
    {
        let space = self.find_space_by_label(space_label);
        match space {
            None => {
                assert(!spec_window_in_labeled_space(self.spaces@, space_label@, *window_id))
                    by {
                    assert(forall|k: int|
                        spec_first_with_label(self.spaces@, space_label@, k)
                            ==> spec_has_label(self.spaces@, space_label@));
                };
                None
            },
            Some(space) => {
                let r = space.find_window_id(window_id);
                proof {
                    let k = choose|k: int|
                        #[trigger] spec_first_with_label(self.spaces@, space_label@, k) && *space
                            == self.spaces@[k];
                    assert forall|k2: int|
                        spec_first_with_label(self.spaces@, space_label@, k2) implies k2
                        == k by {};
                }
                r
            },
        }
    }
}

} // verus!
