//! Command history with an up/down navigation cursor.

use vstd::prelude::*;

use crate::text::{is_blank, is_blank_str};

verus! {

/// The abstract state of a history: the recorded command lines, oldest
/// first, and the position that up/down navigation has reached.
pub struct HistoryView {
    pub entries: Seq<Seq<char>>,
    pub cursor: Option<int>,
}

/// What every history keeps: the cursor points at an entry, no entry is
/// blank, and no command is recorded twice in a row.
pub open spec fn history_wf(h: HistoryView) -> bool {
    &&& (h.cursor matches Some(i) ==> 0 <= i < h.entries.len())
    &&& forall|k: int| 0 <= k < h.entries.len() ==> !is_blank(#[trigger] h.entries[k])
    &&& forall|k: int| 0 < k < h.entries.len() ==> #[trigger] h.entries[k] != h.entries[k - 1]
}

/// Recording a command line: blank lines are ignored altogether; a repeat
/// of the newest entry is not stored again; either way navigation restarts.
pub open spec fn push_spec(h: HistoryView, command: Seq<char>) -> HistoryView {
    if is_blank(command) {
        h
    } else if h.entries.len() > 0 && h.entries.last() == command {
        HistoryView { entries: h.entries, cursor: None }
    } else {
        HistoryView { entries: h.entries.push(command), cursor: None }
    }
}

/// The entry that "previous" moves to: one older than the cursor (staying
/// at the oldest), or the newest when navigation has not started.
pub open spec fn previous_index(h: HistoryView) -> int {
    match h.cursor {
        Some(i) => if i == 0 {
            0
        } else {
            i - 1
        },
        None => h.entries.len() - 1,
    }
}

/// Moving to an older entry: the new state and the entry shown.
pub open spec fn previous_spec(h: HistoryView) -> (HistoryView, Option<Seq<char>>) {
    if h.entries.len() == 0 {
        (h, None)
    } else {
        let i = previous_index(h);
        (HistoryView { entries: h.entries, cursor: Some(i) }, Some(h.entries[i]))
    }
}

/// Moving to a newer entry: past the newest, navigation ends with an empty
/// line; without navigation nothing happens.
pub open spec fn next_spec(h: HistoryView) -> (HistoryView, Option<Seq<char>>) {
    match h.cursor {
        None => (h, None),
        Some(i) => if i + 1 >= h.entries.len() {
            (HistoryView { entries: h.entries, cursor: None }, Some(Seq::<char>::empty()))
        } else {
            (HistoryView { entries: h.entries, cursor: Some(i + 1) }, Some(h.entries[i + 1]))
        },
    }
}

/// An optional string slice, taken as characters.
pub open spec fn opt_str_view(o: Option<&str>) -> Option<Seq<char>> {
    match o {
        Some(s) => Some(s@),
        None => None,
    }
}

/// The state after pressing "previous" `k` times.
pub open spec fn previous_times(h: HistoryView, k: nat) -> HistoryView
    decreases k,
{
    if k == 0 {
        h
    } else {
        previous_spec(previous_times(h, (k - 1) as nat)).0
    }
}

/// Every history operation keeps a history well formed.
pub proof fn lemma_operations_keep_wf(h: HistoryView, command: Seq<char>)
    requires
        history_wf(h),
    ensures
        history_wf(push_spec(h, command)),
        history_wf(previous_spec(h).0),
        history_wf(next_spec(h).0),
        history_wf(HistoryView { entries: h.entries, cursor: None }),
{
    let p = push_spec(h, command);
    if !is_blank(command) && !(h.entries.len() > 0 && h.entries.last() == command) {
        assert forall|k: int| 0 <= k < p.entries.len() implies !is_blank(#[trigger] p.entries[k]) by {
            if k < h.entries.len() {
                assert(p.entries[k] == h.entries[k]);
            }
        }
        assert forall|k: int| 0 < k < p.entries.len() implies #[trigger] p.entries[k] != p.entries[k
            - 1] by {
            if k < h.entries.len() {
                assert(p.entries[k] == h.entries[k]);
            }
        }
    }
}

/// Navigation moves the cursor only: the recorded entries never change.
pub proof fn lemma_navigation_keeps_entries(h: HistoryView)
    ensures
        previous_spec(h).0.entries == h.entries,
        next_spec(h).0.entries == h.entries,
{
}

/// A blank command line changes nothing, not even the navigation position;
/// any other command ends navigation, and the newest entry is then that
/// command, stored once.
pub proof fn lemma_push_records_command(h: HistoryView, command: Seq<char>)
    ensures
        is_blank(command) ==> push_spec(h, command) == h,
        !is_blank(command) ==> push_spec(h, command).cursor == None::<int>
            && push_spec(h, command).entries.last() == command
            && push_spec(h, command).entries.len() >= 1,
        !is_blank(command) && h.entries.len() > 0 && h.entries.last() == command
            ==> push_spec(h, command).entries == h.entries,
{
}

/// Right after a command is recorded, "previous" recalls it.
pub proof fn lemma_previous_recalls_last_command(h: HistoryView, command: Seq<char>)
    requires
        !is_blank(command),
    ensures
        previous_spec(push_spec(h, command)).1 == Some(command),
{
}

/// Starting from no navigation, the `k`-th press of "previous" (1 <= k <= n)
/// shows the `k`-th newest entry; further presses stay at the oldest. With no
/// entries every press shows nothing. The entries never change.
pub proof fn lemma_previous_walks_back(h: HistoryView, k: nat)
    requires
        h.cursor == None::<int>,
        k >= 1,
    ensures
        previous_times(h, k).entries == h.entries,
        h.entries.len() > 0 ==> previous_times(h, k).cursor == Some(
            if k <= h.entries.len() {
                h.entries.len() - k
            } else {
                0int
            },
        ),
        h.entries.len() > 0 ==> previous_spec(previous_times(h, (k - 1) as nat)).1 == Some(
            h.entries[if k <= h.entries.len() {
                h.entries.len() - k
            } else {
                0int
            }],
        ),
        h.entries.len() == 0 ==> previous_spec(previous_times(h, (k - 1) as nat)).1 is None
            && previous_times(h, k) == h,
    decreases k,
{
    assert(previous_times(h, 0) == h);
    if k > 1 {
        lemma_previous_walks_back(h, (k - 1) as nat);
    }
}

/// "next" undoes "previous" whenever "previous" moved the cursor back.
pub proof fn lemma_next_undoes_previous(h: HistoryView)
    requires
        history_wf(h),
        h.cursor matches Some(i) && i >= 1,
    ensures
        next_spec(previous_spec(h).0).0 == h,
        next_spec(previous_spec(h).0).1 == Some(h.entries[h.cursor->0]),
{
}

/// Moving past the newest entry ends navigation with an empty line: after
/// "previous" from the start, "next" returns to the empty prompt.
pub proof fn lemma_next_returns_to_prompt(h: HistoryView)
    requires
        h.cursor == None::<int>,
        h.entries.len() > 0,
    ensures
        next_spec(previous_spec(h).0) == (
        HistoryView { entries: h.entries, cursor: None },
        Some(Seq::<char>::empty()),
        ),
{
}

/// The commands entered so far, and the up/down navigation position.
pub struct History {
    entries: Vec<String>,
    cursor: Option<usize>,
}

impl View for History {
    type V = HistoryView;

    closed spec fn view(&self) -> HistoryView {
        HistoryView {
            entries: self.entries@.map_values(|s: String| s@),
            cursor: match self.cursor {
                Some(i) => Some(i as int),
                None => None,
            },
        }
    }
}

impl Default for History {
    fn default() -> (h: Self)
        ensures
            h@.entries == Seq::<Seq<char>>::empty(),
            h@.cursor == None::<int>,
            history_wf(h@),
    {
        let h = History { entries: Vec::new(), cursor: None };
        assert(h@.entries =~= Seq::<Seq<char>>::empty());
        h
    }
}

impl History {
    #[verifier::type_invariant]
    closed spec fn inv(&self) -> bool {
        history_wf(self@)
    }

    /// Records a command line (see `push_spec`).
    pub fn push(&mut self, command: String)
        ensures
            final(self)@ == push_spec(old(self)@, command@),
    {
        proof {
            use_type_invariant(&*self);
        }
        if is_blank_str(command.as_str()) {
            return;
        }
        let n = self.entries.len();
        let repeat = n > 0 && self.entries[n - 1] == command;
        let ghost old_view = self@;
        self.cursor = None;
        let mut entries: Vec<String> = Vec::new();
        std::mem::swap(&mut entries, &mut self.entries);
        if !repeat {
            entries.push(command);
        }
        proof {
            assert(entries@.map_values(|s: String| s@) =~= push_spec(old_view, command@).entries);
        }
        *self = History { entries, cursor: None };
    }

    /// Moves to an older entry and returns it (see `previous_spec`).
    pub fn previous(&mut self) -> (r: Option<&str>)
        ensures
            final(self)@ == previous_spec(old(self)@).0,
            opt_str_view(r) == previous_spec(old(self)@).1,
    {
        proof {
            use_type_invariant(&*self);
        }
        if self.entries.len() == 0 {
            return None;
        }
        let index = match self.cursor {
            Some(i) => if i == 0 {
                0
            } else {
                i - 1
            },
            None => self.entries.len() - 1,
        };
        assert(history_wf(HistoryView { entries: self@.entries, cursor: Some(index as int) }));
        self.cursor = Some(index);
        Some(self.entries[index].as_str())
    }

    /// Moves to a newer entry and returns it (see `next_spec`).
    pub fn next(&mut self) -> (r: Option<&str>)
        ensures
            final(self)@ == next_spec(old(self)@).0,
            opt_str_view(r) == next_spec(old(self)@).1,
    {
        proof {
            use_type_invariant(&*self);
        }
        let index = match self.cursor {
            Some(i) => i,
            None => {
                return None;
            },
        };
        assert(self@.cursor == Some(index as int));
        assert(index < self.entries.len());
        if index + 1 >= self.entries.len() {
            self.cursor = None;
            proof {
                reveal_strlit("");
            }
            return Some("");
        }
        let next = index + 1;
        self.cursor = Some(next);
        Some(self.entries[next].as_str())
    }

    /// Ends navigation.
    pub fn reset_cursor(&mut self)
        ensures
            final(self)@ == (HistoryView { entries: old(self)@.entries, cursor: None }),
    {
        proof {
            use_type_invariant(&*self);
        }
        self.cursor = None;
    }

    /// The entries with their positions, oldest first.
    pub fn lines(&self) -> (r: Vec<(usize, &String)>)
        ensures
            r@.len() == self@.entries.len(),
            forall|i: int|
                0 <= i < r@.len() ==> r@[i].0 == i && (#[trigger] r@[i]).1@ == self@.entries[i],
    {
        let mut r: Vec<(usize, &String)> = Vec::new();
        let n = self.entries.len();
        let mut i: usize = 0;
        while i < n
            invariant
                i <= n,
                n == self.entries@.len(),
                self@.entries == self.entries@.map_values(|s: String| s@),
                r@.len() == i,
                forall|k: int|
                    0 <= k < i ==> r@[k].0 == k && (#[trigger] r@[k]).1@ == self@.entries[k],
            decreases n - i,
        {
            r.push((i, &self.entries[i]));
            i = i + 1;
        }
        r
    }
}

} // verus!
