//! The menu-bar status item that shows the active virtual workspace.

use vstd::prelude::*;
use crate::text::{decimal, decimal_value, lemma_decimal_injective, lemma_decimal_reads_back, push_decimal, str_equal};

verus! {

/// The label shown for the virtual workspace with index `virtual_index`:
/// `VW ` followed by the one-based workspace number.
pub open spec fn virtual_workspace_label(virtual_index: nat) -> Seq<char> {
    "VW "@ + decimal(virtual_index + 1)
}

/// The label of a virtual workspace, numbered from one.
pub fn format_virtual_workspace_label(virtual_index: u32) -> (label: String)
    requires
        virtual_index < u32::MAX,
    ensures
        label@ == virtual_workspace_label(virtual_index as nat),
{
    let mut label = String::from_str("VW ");
    push_decimal(&mut label, (virtual_index + 1) as u64);
    label
}

/// A label reads back as its workspace: after the `VW ` prefix come the
/// decimal digits of the one-based workspace number.
pub proof fn law_label_reads_back(virtual_index: nat)
    ensures
        virtual_workspace_label(virtual_index).subrange(0, 3) == "VW "@,
        decimal_value(virtual_workspace_label(virtual_index).subrange(
            3, virtual_workspace_label(virtual_index).len() as int)) == virtual_index + 1,
{
    reveal_strlit("VW ");
    let label = virtual_workspace_label(virtual_index);
    assert(label.subrange(0, 3) =~= "VW "@);
    assert(label.subrange(3, label.len() as int) =~= decimal(virtual_index + 1));
    lemma_decimal_reads_back(virtual_index + 1);
}

/// Different virtual workspaces get different labels.
pub proof fn law_labels_are_distinct(a: nat, b: nat)
    requires
        a != b,
    ensures
        virtual_workspace_label(a) != virtual_workspace_label(b),
{
    if virtual_workspace_label(a) == virtual_workspace_label(b) {
        let prefix = "VW "@;
        assert(virtual_workspace_label(a).subrange(prefix.len() as int, virtual_workspace_label(a).len() as int)
            =~= decimal(a + 1));
        assert(virtual_workspace_label(b).subrange(prefix.len() as int, virtual_workspace_label(b).len() as int)
            =~= decimal(b + 1));
        lemma_decimal_injective(a + 1, b + 1);
    }
}


/// `shown` is no label, or the label of some virtual workspace.
pub open spec fn shows_a_workspace(shown: Option<Seq<char>>) -> bool {
    shown is None || exists|k: nat| k < u32::MAX && shown == Some(#[trigger] virtual_workspace_label(k))
}

/// What the status item shows after a request to show workspace `index`:
/// its label when there is a button to draw on, and what it showed before
/// otherwise.
pub open spec fn show_step(shown: Option<Seq<char>>, index: nat, has_button: bool) -> Option<Seq<char>> {
    if has_button {
        Some(virtual_workspace_label(index))
    } else {
        shown
    }
}

/// What a new status item shows: the label of the first virtual workspace
/// when it has a button to draw on, and nothing otherwise.
pub open spec fn initially_shown(has_button: bool) -> Option<Seq<char>> {
    show_step(None, 0, has_button)
}

/// What the status item shows after starting from `initial` and taking the
/// requests `calls` in order, each a workspace index and whether there was a
/// button to draw on.
pub open spec fn shown_after(initial: Option<Seq<char>>, calls: Seq<(nat, bool)>) -> Option<Seq<char>>
    decreases calls.len(),
{
    if calls.len() == 0 {
        initial
    } else {
        show_step(shown_after(initial, calls.drop_last()), calls.last().0, calls.last().1)
    }
}

/// The position of the last request in `calls` that had a button to draw
/// on, if any.
pub open spec fn last_drawn(calls: Seq<(nat, bool)>) -> Option<int>
    decreases calls.len(),
{
    if calls.len() == 0 {
        None
    } else if calls.last().1 {
        Some(calls.len() - 1)
    } else {
        last_drawn(calls.drop_last())
    }
}

/// After a new status item and any sequence of requests, the status item
/// shows the label of the workspace of the last request that had a button
/// to draw on; when no request had one, it shows what it showed when new.
/// Every label it shows is the label of a virtual workspace.
pub proof fn law_shows_last_drawn_workspace(has_button: bool, calls: Seq<(nat, bool)>)
    requires
        forall|i: int| 0 <= i < calls.len() ==> #[trigger] calls[i].0 < u32::MAX,
    ensures
        match last_drawn(calls) {
            Some(k) => {
                &&& 0 <= k < calls.len()
                &&& calls[k].1
                &&& forall|j: int| k < j < calls.len() ==> !(#[trigger] calls[j]).1
                &&& shown_after(initially_shown(has_button), calls) == Some(
                    virtual_workspace_label(calls[k].0))
            },
            None => {
                &&& forall|j: int| 0 <= j < calls.len() ==> !(#[trigger] calls[j]).1
                &&& shown_after(initially_shown(has_button), calls) == initially_shown(has_button)
            },
        },
        shows_a_workspace(shown_after(initially_shown(has_button), calls)),
    decreases calls.len(),
{
    if calls.len() > 0 {
        let prefix = calls.drop_last();
        assert forall|i: int| 0 <= i < prefix.len() implies #[trigger] prefix[i].0 < u32::MAX by {
            assert(prefix[i] == calls[i]);
        }
        law_shows_last_drawn_workspace(has_button, prefix);
        let last = calls.last();
        assert(calls[calls.len() - 1] == last);
        if !last.1 {
            match last_drawn(prefix) {
                Some(k) => {
                    assert forall|j: int| k < j < calls.len() implies !(#[trigger] calls[j]).1 by {
                        if j < calls.len() - 1 {
                            assert(calls[j] == prefix[j]);
                        }
                    }
                    assert(calls[k] == prefix[k]);
                },
                None => {
                    assert forall|j: int| 0 <= j < calls.len() implies !(#[trigger] calls[j]).1 by {
                        if j < calls.len() - 1 {
                            assert(calls[j] == prefix[j]);
                        }
                    }
                },
            }
        } else {
            assert(shows_a_workspace(Some(virtual_workspace_label(last.0))));
        }
    } else {
        assert(shows_a_workspace(Some(virtual_workspace_label(0))));
    }
}

/// The state of the menu-bar status item: the label it currently shows, if
/// any has been shown.
pub struct MenuBarManager {
    current_label: Option<String>,
}

impl MenuBarManager {
    /// A status item shows no label or the label of a virtual workspace.
    #[verifier::type_invariant]
    spec fn label_is_a_workspace(self) -> bool {
        shows_a_workspace(self.shown())
    }

    /// The label shown so far, as text.
    pub closed spec fn shown(&self) -> Option<Seq<char>> {
        match self.current_label {
            Some(label) => Some(label@),
            None => None,
        }
    }

    /// A new status item, showing the label of the first virtual workspace
    /// when it has a button to draw on, and no label otherwise.
    pub fn new(has_button: bool) -> (s: Self)
        ensures
            s.shown() == initially_shown(has_button),
            shows_a_workspace(s.shown()),
    {
        let mut manager = MenuBarManager { current_label: None };
        manager.show_virtual_workspace(0, has_button);
        manager
    }

    /// The label currently shown, if any.
    pub fn current_label(&self) -> (r: Option<&String>)
        ensures
            match r {
                Some(label) => self.shown() == Some(label@),
                None => self.shown() is None,
            },
            shows_a_workspace(self.shown()),
    {
        proof {
            use_type_invariant(self);
        }
        match &self.current_label {
            Some(label) => Some(label),
            None => None,
        }
    }

    /// Shows the label of virtual workspace `virtual_index`. Returns the
    /// label to draw on the status item's button, and records it as shown,
    /// unless it is already shown or there is no button to draw on (then
    /// nothing is drawn or recorded).
    pub fn show_virtual_workspace(&mut self, virtual_index: u32, has_button: bool) -> (draw: Option<String>)
        requires
            virtual_index < u32::MAX,
        ensures
            old(self).shown() == Some(virtual_workspace_label(virtual_index as nat)) ==> {
                &&& draw is None
                &&& final(self).shown() == old(self).shown()
            },
            old(self).shown() != Some(virtual_workspace_label(virtual_index as nat)) ==> if has_button {
                &&& draw matches Some(label) && label@ == virtual_workspace_label(virtual_index as nat)
                &&& final(self).shown() == Some(virtual_workspace_label(virtual_index as nat))
            } else {
                &&& draw is None
                &&& final(self).shown() == old(self).shown()
            },
            final(self).shown() == show_step(old(self).shown(), virtual_index as nat, has_button),
            shows_a_workspace(final(self).shown()),
    {
        proof {
            use_type_invariant(&*self);
        }
        let label = format_virtual_workspace_label(virtual_index);
        let same = match &self.current_label {
            Some(current) => str_equal(current.as_str(), label.as_str()),
            None => false,
        };
        if same || !has_button {
            return None;
        }
        let shown = label.clone();
        proof {
            assert(shows_a_workspace(Some(label@)));
        }
        self.current_label = Some(label);
        Some(shown)
    }
}

/// Once the label of workspace `i` is shown, a redraw is asked for exactly
/// the workspaces other than `i`.
pub proof fn law_redraw_exactly_on_change(shown: Seq<char>, i: nat, j: nat)
    requires
        shown == virtual_workspace_label(i),
    ensures
        (shown == virtual_workspace_label(j)) <==> (i == j),
{
    if i != j {
        law_labels_are_distinct(i, j);
    }
}

/// The virtual workspace the status item was last updated for: the active
/// workspace's entity and its virtual index.
pub struct DisplayedWorkspace {
    pub shown: Option<(u64, u32)>,
}

impl DisplayedWorkspace {
    /// Nothing has been displayed yet.
    pub fn new() -> (d: Self)
        ensures
            d.shown is None,
    {
        DisplayedWorkspace { shown: None }
    }
}

/// Decides whether the status item must show another virtual workspace.
/// With a menu bar and an active workspace `(entity, virtual index)` other
/// than the one last displayed, returns the virtual index to show and
/// remembers the workspace; otherwise returns `None` and changes nothing.
pub fn update_virtual_workspace_status_item(
    displayed: &mut DisplayedWorkspace,
    menu_bar_present: bool,
    active_workspace: Option<(u64, u32)>,
) -> (show: Option<u32>)
    ensures
        match active_workspace {
            Some(next) => if menu_bar_present && old(displayed).shown != Some(next) {
                show == Some(next.1) && final(displayed).shown == Some(next)
            } else {
                show is None && final(displayed).shown == old(displayed).shown
            },
            None => show is None && final(displayed).shown == old(displayed).shown,
        },
{
    if !menu_bar_present {
        return None;
    }
    let next = match active_workspace {
        Some(next) => next,
        None => return None,
    };
    let same = match displayed.shown {
        Some(shown) => shown.0 == next.0 && shown.1 == next.1,
        None => false,
    };
    if same {
        return None;
    }
    displayed.shown = Some(next);
    Some(next.1)
}

} // verus!
