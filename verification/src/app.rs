//! The coordination layer: all state the presentation layer reads and the
//! event loop mutates — the list of found directories, the operator's
//! selection, the screen the interface is on, and the running counters of the
//! scan and delete engines.

use vstd::prelude::*;

use vstd::multiset::Multiset;

use crate::deleter::{sat_u64, DeleteMsg};
use crate::scanner::{ActiveScan, ScanMsg};

verus! {

// ─── Entries ──────────────────────────────────────────────────────────────────

/// A single target directory discovered during a scan.
pub struct NodeModuleEntry {
    /// Absolute path to the directory.
    pub path: String,
    /// Total size of all files inside, in bytes, computed once during the
    /// scan and immutable afterwards.
    pub size: u64,
    /// Whether the directory lives somewhere unsafe to delete unattended.
    pub sensitive: bool,
    /// Whether the operator has marked the entry for deletion. Safe entries
    /// start selected, sensitive ones start unselected.
    pub selected: bool,
    /// Last-modified time in seconds since the epoch, when metadata was
    /// available.
    pub last_modified: Option<u64>,
}

/// The value of an entry, with the path as its character sequence.
pub ghost struct EntryModel {
    pub path: Seq<char>,
    pub size: u64,
    pub sensitive: bool,
    pub selected: bool,
    pub last_modified: Option<u64>,
}

impl View for NodeModuleEntry {
    type V = EntryModel;

    open spec fn view(&self) -> EntryModel {
        EntryModel {
            path: self.path@,
            size: self.size,
            sensitive: self.sensitive,
            selected: self.selected,
            last_modified: self.last_modified,
        }
    }
}

impl NodeModuleEntry {
    /// A freshly discovered entry: selected exactly when it is not sensitive.
    pub fn new(path: String, size: u64, sensitive: bool, last_modified: Option<u64>) -> (r:
        NodeModuleEntry)
        ensures
            r@ == (EntryModel {
                path: path@,
                size,
                sensitive,
                selected: !sensitive,
                last_modified,
            }),
            r.selected == !r.sensitive,
    {
        NodeModuleEntry { path, size, sensitive, selected: !sensitive, last_modified }
    }
}

/// The toggled form of an entry: the selection flag flipped, all else kept.
pub open spec fn spec_toggled(e: EntryModel) -> EntryModel {
    EntryModel { selected: !e.selected, ..e }
}

/// Toggling an entry's selection twice restores it exactly: together with
/// the creation default of `NodeModuleEntry::new`, the flag always shows
/// the outcome of the operator's latest action on the entry.
pub proof fn lemma_toggle_twice(e: EntryModel)
    ensures
        spec_toggled(spec_toggled(e)) == e,
{
}

/// The values of a sequence of entries.
pub open spec fn views_of(s: Seq<NodeModuleEntry>) -> Seq<EntryModel> {
    s.map_values(|e: NodeModuleEntry| e@)
}

// ─── Screens ──────────────────────────────────────────────────────────────────

/// Which phase the application is in, and so which screen is visible.
pub enum Screen {
    /// The opening screen; nothing has happened yet.
    Welcome,
    /// A scan runs in the background.
    Scanning,
    /// The scan finished; the operator browses and selects entries.
    List,
    /// A confirmation popup stands over the list before deletion begins.
    Confirming,
    /// Deletion runs in the background.
    Deleting,
    /// Everything is finished; a summary is shown.
    Done,
}

// ─── The application state ────────────────────────────────────────────────────

/// All runtime state of the application. One value of this type lives for
/// the whole run; the presentation layer reads it every frame and the event
/// loop mutates it through the methods below.
pub struct App {
    /// Which screen is currently shown.
    pub screen: Screen,
    /// The root directory the operator asked to scan.
    pub scan_root: String,
    /// All entries found so far, sorted largest-first once scanning is done.
    pub entries: Vec<NodeModuleEntry>,
    /// The highlighted row of the list, when there is one.
    pub cursor: Option<usize>,
    /// Handle to the background scan, while one is live.
    pub scan: Option<ActiveScan>,
    /// Receive endpoint of the delete worker's events, while one is live.
    pub delete_rx: Option<std::sync::mpsc::Receiver<DeleteMsg>>,
    /// How many directories the delete worker has started on so far.
    pub delete_done: usize,
    /// How many directories the current delete run targets in total.
    pub delete_total: usize,
    /// The path currently being removed.
    pub delete_current: String,
    /// Total bytes freed by the finished delete run.
    pub delete_freed: u64,
    /// One message per path that could not be deleted.
    pub delete_errors: Vec<String>,
    /// Incremented by the event loop every tick; drives animations.
    pub ticker: u64,
}

impl App {
    /// The cursor, when set, points at an entry.
    pub open spec fn wf(self) -> bool {
        match self.cursor {
            Some(i) => i < self.entries@.len(),
            None => true,
        }
    }

    /// Everything but the entry list and the cursor is the same in `a` and
    /// `b`.
    pub open spec fn same_outside_list(a: App, b: App) -> bool {
        &&& a.screen == b.screen
        &&& a.scan_root == b.scan_root
        &&& a.scan == b.scan
        &&& a.delete_rx == b.delete_rx
        &&& a.delete_done == b.delete_done
        &&& a.delete_total == b.delete_total
        &&& a.delete_current == b.delete_current
        &&& a.delete_freed == b.delete_freed
        &&& a.delete_errors == b.delete_errors
        &&& a.ticker == b.ticker
    }

    /// A fresh application: welcome screen, the given scan root, and every
    /// list and counter empty.
    pub fn new(scan_root: String) -> (r: App)
        ensures
            r.screen == Screen::Welcome,
            r.scan_root == scan_root,
            r.entries@.len() == 0,
            r.cursor is None,
            r.scan is None,
            r.delete_rx is None,
            r.delete_done == 0,
            r.delete_total == 0,
            r.delete_current@.len() == 0,
            r.delete_freed == 0,
            r.delete_errors@.len() == 0,
            r.ticker == 0,
            r.wf(),
    {
        App {
            screen: Screen::Welcome,
            scan_root,
            entries: Vec::new(),
            cursor: None,
            scan: None,
            delete_rx: None,
            delete_done: 0,
            delete_total: 0,
            delete_current: String::new(),
            delete_freed: 0,
            delete_errors: Vec::new(),
            ticker: 0,
        }
    }
}

// ─── List navigation and selection ────────────────────────────────────────────

impl App {
    /// Moves the highlighted row up by one, wrapping to the bottom; selects
    /// the bottom row when nothing was highlighted. Empty lists are left
    /// alone.
    pub fn navigate_up(&mut self)
        requires
            old(self).wf(),
        ensures
            final(self).wf(),
            Self::same_outside_list(*final(self), *old(self)),
            final(self).entries == old(self).entries,
            old(self).entries@.len() == 0 ==> final(self).cursor == old(self).cursor,
            old(self).entries@.len() > 0 ==> final(self).cursor == Some(
                (match old(self).cursor {
                    Some(i) => if i == 0 {
                        (old(self).entries@.len() - 1) as usize
                    } else {
                        (i - 1) as usize
                    },
                    None => (old(self).entries@.len() - 1) as usize,
                }),
            ),
    {
        let len = self.entries.len();
        if len == 0 {
            return ;
        }
        let i = match self.cursor {
            Some(i) => if i == 0 {
                len - 1
            } else {
                i - 1
            },
            None => len - 1,
        };
        self.cursor = Some(i);
    }

    /// Moves the highlighted row down by one, wrapping to the top; selects
    /// the top row when nothing was highlighted. Empty lists are left alone.
    pub fn navigate_down(&mut self)
        requires
            old(self).wf(),
        ensures
            final(self).wf(),
            Self::same_outside_list(*final(self), *old(self)),
            final(self).entries == old(self).entries,
            old(self).entries@.len() == 0 ==> final(self).cursor == old(self).cursor,
            old(self).entries@.len() > 0 ==> final(self).cursor == Some(
                (match old(self).cursor {
                    Some(i) => if i + 1 == old(self).entries@.len() {
                        0usize
                    } else {
                        (i + 1) as usize
                    },
                    None => 0usize,
                }),
            ),
    {
        let len = self.entries.len();
        if len == 0 {
            return ;
        }
        let i = match self.cursor {
            Some(i) => if i + 1 == len {
                0
            } else {
                i + 1
            },
            None => 0,
        };
        self.cursor = Some(i);
    }

    /// Flips the selection flag of the highlighted entry; the flag then
    /// matches this latest action. Nothing happens without a highlight.
    pub fn toggle_selected(&mut self)
        requires
            old(self).wf(),
        ensures
            final(self).wf(),
            Self::same_outside_list(*final(self), *old(self)),
            final(self).cursor == old(self).cursor,
            match old(self).cursor {
                Some(i) => views_of(final(self).entries@) == views_of(old(self).entries@).update(
                    i as int,
                    spec_toggled(old(self).entries@[i as int]@),
                ),
                None => final(self).entries == old(self).entries,
            },
    {
        if let Some(i) = self.cursor {
            let e = &self.entries[i];
            let flipped = NodeModuleEntry {
                path: e.path.clone(),
                size: e.size,
                sensitive: e.sensitive,
                selected: !e.selected,
                last_modified: e.last_modified,
            };
            self.entries[i] = flipped;
            proof {
                assert(views_of(self.entries@) =~= views_of(old(self).entries@).update(
                    i as int,
                    spec_toggled(old(self).entries@[i as int]@),
                ));
            }
        }
    }
}

// ─── Aggregates over the entry list ───────────────────────────────────────────

/// Some safe entry is unselected.
pub open spec fn spec_any_safe_unselected(s: Seq<EntryModel>) -> bool {
    exists|k: int| 0 <= k < s.len() && !s[k].sensitive && !s[k].selected
}

/// Some entry is unselected.
pub open spec fn spec_any_unselected(s: Seq<EntryModel>) -> bool {
    exists|k: int| 0 <= k < s.len() && !s[k].selected
}

/// How many entries are selected.
pub open spec fn spec_selected_count(s: Seq<EntryModel>) -> int
    decreases s.len(),
{
    if s.len() == 0 {
        0
    } else {
        spec_selected_count(s.drop_last()) + if s.last().selected {
            1int
        } else {
            0int
        }
    }
}

/// Combined size of the selected entries.
pub open spec fn spec_selected_size(s: Seq<EntryModel>) -> int
    decreases s.len(),
{
    if s.len() == 0 {
        0
    } else {
        spec_selected_size(s.drop_last()) + if s.last().selected {
            s.last().size as int
        } else {
            0int
        }
    }
}

/// Combined size of all entries.
pub open spec fn spec_total_size(s: Seq<EntryModel>) -> int
    decreases s.len(),
{
    if s.len() == 0 {
        0
    } else {
        spec_total_size(s.drop_last()) + s.last().size as int
    }
}

/// The paths of the selected entries, in list order.
pub open spec fn spec_selected_paths(s: Seq<EntryModel>) -> Seq<Seq<char>>
    decreases s.len(),
{
    if s.len() == 0 {
        Seq::empty()
    } else {
        spec_selected_paths(s.drop_last()) + if s.last().selected {
            seq![s.last().path]
        } else {
            Seq::empty()
        }
    }
}

/// There are as many selected paths as selected entries.
pub proof fn lemma_selected_paths_len(s: Seq<EntryModel>)
    ensures
        spec_selected_paths(s).len() == spec_selected_count(s),
    decreases s.len(),
{
    if s.len() > 0 {
        lemma_selected_paths_len(s.drop_last());
    }
}

impl App {
    /// Selects every safe entry when at least one of them is unselected,
    /// otherwise deselects them all. Sensitive entries are never touched.
    pub fn toggle_all(&mut self)
        requires
            old(self).wf(),
        ensures
            final(self).wf(),
            Self::same_outside_list(*final(self), *old(self)),
            final(self).cursor == old(self).cursor,
            final(self).entries@.len() == old(self).entries@.len(),
            forall|i: int|
                0 <= i < old(self).entries@.len() ==> final(self).entries@[i]@ == (EntryModel {
                    selected: if old(self).entries@[i]@.sensitive {
                        old(self).entries@[i]@.selected
                    } else {
                        spec_any_safe_unselected(views_of(old(self).entries@))
                    },
                    ..old(self).entries@[i]@
                }),
    {
        let ghost views = views_of(old(self).entries@);
        let mut any_unselected = false;
        for k in 0..self.entries.len()
            invariant
                self == old(self),
                views == views_of(old(self).entries@),
                any_unselected == exists|j: int|
                    0 <= j < k && !views[j].sensitive && !views[j].selected,
        {
            proof {
                assert(views[k as int] == self.entries@[k as int]@);
            }
            let e = &self.entries[k];
            if !e.sensitive && !e.selected {
                any_unselected = true;
            }
        }
        proof {
            assert(any_unselected == spec_any_safe_unselected(views));
        }
        let n = self.entries.len();
        for i in 0..n
            invariant
                n == old(self).entries@.len(),
                self.entries@.len() == n,
                Self::same_outside_list(*self, *old(self)),
                self.cursor == old(self).cursor,
                any_unselected == spec_any_safe_unselected(views),
                views == views_of(old(self).entries@),
                forall|j: int|
                    i <= j < n ==> self.entries@[j] == old(self).entries@[j],
                forall|j: int|
                    0 <= j < i ==> self.entries@[j]@ == (EntryModel {
                        selected: if old(self).entries@[j]@.sensitive {
                            old(self).entries@[j]@.selected
                        } else {
                            spec_any_safe_unselected(views)
                        },
                        ..old(self).entries@[j]@
                    }),
        {
            let e = &self.entries[i];
            if !e.sensitive {
                let replacement = NodeModuleEntry {
                    path: e.path.clone(),
                    size: e.size,
                    sensitive: e.sensitive,
                    selected: any_unselected,
                    last_modified: e.last_modified,
                };
                self.entries[i] = replacement;
            }
        }
    }

    /// Selects every entry — sensitive ones included — when at least one is
    /// unselected, otherwise deselects them all.
    pub fn toggle_all_force(&mut self)
        requires
            old(self).wf(),
        ensures
            final(self).wf(),
            Self::same_outside_list(*final(self), *old(self)),
            final(self).cursor == old(self).cursor,
            final(self).entries@.len() == old(self).entries@.len(),
            forall|i: int|
                0 <= i < old(self).entries@.len() ==> final(self).entries@[i]@ == (EntryModel {
                    selected: spec_any_unselected(views_of(old(self).entries@)),
                    ..old(self).entries@[i]@
                }),
    {
        let ghost views = views_of(old(self).entries@);
        let mut any_unselected = false;
        for k in 0..self.entries.len()
            invariant
                self == old(self),
                views == views_of(old(self).entries@),
                any_unselected == exists|j: int| 0 <= j < k && !views[j].selected,
        {
            proof {
                assert(views[k as int] == self.entries@[k as int]@);
            }
            let e = &self.entries[k];
            if !e.selected {
                any_unselected = true;
            }
        }
        proof {
            assert(any_unselected == spec_any_unselected(views));
        }
        let n = self.entries.len();
        for i in 0..n
            invariant
                n == old(self).entries@.len(),
                self.entries@.len() == n,
                Self::same_outside_list(*self, *old(self)),
                self.cursor == old(self).cursor,
                any_unselected == spec_any_unselected(views),
                views == views_of(old(self).entries@),
                forall|j: int|
                    i <= j < n ==> self.entries@[j] == old(self).entries@[j],
                forall|j: int|
                    0 <= j < i ==> self.entries@[j]@ == (EntryModel {
                        selected: spec_any_unselected(views),
                        ..old(self).entries@[j]@
                    }),
        {
            let e = &self.entries[i];
            let replacement = NodeModuleEntry {
                path: e.path.clone(),
                size: e.size,
                sensitive: e.sensitive,
                selected: any_unselected,
                last_modified: e.last_modified,
            };
            self.entries[i] = replacement;
        }
    }

    /// How many entries are currently selected for deletion.
    pub fn selected_count(&self) -> (r: usize)
        ensures
            r as int == spec_selected_count(views_of(self.entries@)),
    {
        let ghost views = views_of(self.entries@);
        let mut count: usize = 0;
        for i in 0..self.entries.len()
            invariant
                views == views_of(self.entries@),
                count <= i,
                count as int == spec_selected_count(views.take(i as int)),
        {
            proof {
                assert(views.take(i + 1).drop_last() =~= views.take(i as int));
                assert(views.take(i + 1).last() == views[i as int]);
            }
            if self.entries[i].selected {
                count = count + 1;
            }
        }
        proof {
            assert(views.take(views.len() as int) =~= views);
        }
        count
    }

    /// Combined size in bytes of the selected entries, saturating at the top
    /// of the range.
    pub fn selected_size(&self) -> (r: u64)
        ensures
            r == sat_u64(spec_selected_size(views_of(self.entries@))),
    {
        let ghost views = views_of(self.entries@);
        let mut total: u64 = 0;
        for i in 0..self.entries.len()
            invariant
                views == views_of(self.entries@),
                total == sat_u64(spec_selected_size(views.take(i as int))),
        {
            proof {
                assert(views.take(i + 1).drop_last() =~= views.take(i as int));
                assert(views.take(i + 1).last() == views[i as int]);
                crate::app::lemma_selected_size_nonneg(views.take(i as int));
            }
            if self.entries[i].selected {
                let size = self.entries[i].size;
                if total > u64::MAX - size {
                    total = u64::MAX;
                } else {
                    total = total + size;
                }
            }
        }
        proof {
            assert(views.take(views.len() as int) =~= views);
        }
        total
    }

    /// Combined size in bytes of every entry, saturating at the top of the
    /// range.
    pub fn total_size(&self) -> (r: u64)
        ensures
            r == sat_u64(spec_total_size(views_of(self.entries@))),
    {
        let ghost views = views_of(self.entries@);
        let mut total: u64 = 0;
        for i in 0..self.entries.len()
            invariant
                views == views_of(self.entries@),
                total == sat_u64(spec_total_size(views.take(i as int))),
        {
            proof {
                assert(views.take(i + 1).drop_last() =~= views.take(i as int));
                assert(views.take(i + 1).last() == views[i as int]);
                crate::app::lemma_total_size_nonneg(views.take(i as int));
            }
            let size = self.entries[i].size;
            if total > u64::MAX - size {
                total = u64::MAX;
            } else {
                total = total + size;
            }
        }
        proof {
            assert(views.take(views.len() as int) =~= views);
        }
        total
    }

    /// The paths of the selected entries, in list order; the snapshot handed
    /// to the delete engine.
    pub fn selected_paths(&self) -> (r: Vec<String>)
        ensures
            r@.map_values(|p: String| p@) == spec_selected_paths(views_of(self.entries@)),
            r@.len() == spec_selected_count(views_of(self.entries@)),
    {
        let ghost views = views_of(self.entries@);
        let mut r: Vec<String> = Vec::new();
        for i in 0..self.entries.len()
            invariant
                views == views_of(self.entries@),
                r@.map_values(|p: String| p@) == spec_selected_paths(views.take(i as int)),
        {
            proof {
                assert(views.take(i + 1).drop_last() =~= views.take(i as int));
                assert(views.take(i + 1).last() == views[i as int]);
            }
            if self.entries[i].selected {
                r.push(self.entries[i].path.clone());
                proof {
                    assert(r@.map_values(|p: String| p@) =~= spec_selected_paths(
                        views.take(i + 1),
                    ));
                }
            } else {
                proof {
                    assert(spec_selected_paths(views.take(i + 1)) =~= spec_selected_paths(
                        views.take(i as int),
                    ));
                }
            }
        }
        proof {
            assert(views.take(views.len() as int) =~= views);
            lemma_selected_paths_len(views);
        }
        r
    }
}

// ─── Sorting the results ──────────────────────────────────────────────────────

/// Entries ordered largest-first.
pub open spec fn spec_sorted_desc(s: Seq<EntryModel>) -> bool {
    forall|i: int, j: int| 0 <= i <= j < s.len() ==> s[i].size >= s[j].size
}

proof fn lemma_views_remove(s: Seq<NodeModuleEntry>, i: int)
    requires
        0 <= i < s.len(),
    ensures
        views_of(s.remove(i)) =~= views_of(s).remove(i),
{
}

/// Sorts the entries by size, largest first; the collection of entries is
/// kept, only their order changes.
fn sort_entries_desc(v: &mut Vec<NodeModuleEntry>)
    ensures
        views_of(final(v)@).to_multiset() == views_of(old(v)@).to_multiset(),
        final(v)@.len() == old(v)@.len(),
        spec_sorted_desc(views_of(final(v)@)),
{
    broadcast use vstd::seq_lib::group_to_multiset_ensures;
    broadcast use vstd::multiset::group_multiset_axioms;

    let ghost orig = views_of(v@).to_multiset();
    let ghost orig_len = v@.len();
    let mut out: Vec<NodeModuleEntry> = Vec::new();
    while v.len() > 0
        invariant
            views_of(out@).to_multiset().add(views_of(v@).to_multiset()) == orig,
            orig == views_of(old(v)@).to_multiset(),
            orig_len == old(v)@.len(),
            out@.len() + v@.len() == orig_len,
            spec_sorted_desc(views_of(out@)),
            forall|a: int, b: int|
                0 <= a < out@.len() && 0 <= b < v@.len() ==> out@[a]@.size >= v@[b]@.size,
        decreases v@.len(),
    {
        let ghost v0 = v@;
        let ghost out0 = out@;
        let mut mi: usize = 0;
        let mut msize: u64 = v[0].size;
        for k in 1..v.len()
            invariant
                v@ == v0,
                v@.len() > 0,
                mi < v@.len(),
                msize == v@[mi as int].size,
                forall|t: int| 0 <= t < k ==> v@[t].size <= msize,
        {
            if v[k].size > msize {
                mi = k;
                msize = v[k].size;
            }
        }
        let e = v.remove(mi);
        let ghost ev = e@;
        out.push(e);
        proof {
            lemma_views_remove(v0, mi as int);
            assert(views_of(v0)[mi as int] == ev);
            assert(views_of(v@) == views_of(v0).remove(mi as int));
            vstd::seq_lib::to_multiset_remove(views_of(v0), mi as int);
            assert(views_of(v@).to_multiset() == views_of(v0).to_multiset().remove(ev));
            assert(views_of(out@) =~= views_of(out0).push(ev));
            vstd::seq_lib::to_multiset_build(views_of(out0), ev);
            assert(views_of(out@).to_multiset() == views_of(out0).to_multiset().insert(ev));
            assert(views_of(out0).to_multiset().insert(ev).add(
                views_of(v0).to_multiset().remove(ev),
            ) =~= views_of(out0).to_multiset().add(views_of(v0).to_multiset())) by {
                assert(views_of(v0).contains(ev)) by {
                    assert(views_of(v0)[mi as int] == ev);
                }
                vstd::seq_lib::to_multiset_contains(views_of(v0), ev);
                assert(views_of(v0).to_multiset().count(ev) > 0);
            }
            // The new entry keeps the output sorted and still dominates what
            // is left.
            assert forall|b: int| 0 <= b < v@.len() implies ev.size >= v@[b].size by {
                assert(v@[b] == if b < mi as int {
                    v0[b]
                } else {
                    v0[b + 1]
                });
            }
            assert forall|a: int, b: int|
                0 <= a <= b < views_of(out@).len() implies views_of(out@)[a].size >= views_of(
                out@,
            )[b].size by {
                if b < out0.len() {
                } else {
                    if a < out0.len() {
                        assert(views_of(out0)[a].size >= v0[mi as int]@.size);
                    }
                }
            }
        }
    }
    proof {
        assert(views_of(v@).to_multiset() =~= Multiset::empty());
        assert(views_of(out@).to_multiset().add(Multiset::<EntryModel>::empty()) =~= views_of(
            out@,
        ).to_multiset());
    }
    let mut replacement = out;
    core::mem::swap(v, &mut replacement);
}

// ─── Scan lifecycle ───────────────────────────────────────────────────────────

/// Every entry of `news` carries the creation default: selected exactly when
/// it is not sensitive.
pub open spec fn entry_defaults_hold(news: Seq<EntryModel>) -> bool {
    forall|k: int| 0 <= k < news.len() ==> news[k].selected == !news[k].sensitive
}

impl App {
    /// A scan handle is present and its terminal event has not arrived.
    pub open spec fn scan_live(self) -> bool {
        match self.scan {
            Some(s) => !s.done,
            None => false,
        }
    }

    /// `a` and `b` hold the same scan endpoints (the done flag may differ).
    pub open spec fn scan_handle_kept(a: App, b: App) -> bool {
        match (a.scan, b.scan) {
            (Some(x), Some(y)) => x.rx == y.rx && x.current_path == y.current_path,
            _ => false,
        }
    }

    /// The fields a scan tick never touches are the same in `a` and `b`.
    pub open spec fn same_scan_frame(a: App, b: App) -> bool {
        &&& a.scan_root == b.scan_root
        &&& a.delete_rx == b.delete_rx
        &&& a.delete_done == b.delete_done
        &&& a.delete_total == b.delete_total
        &&& a.delete_current == b.delete_current
        &&& a.delete_freed == b.delete_freed
        &&& a.delete_errors == b.delete_errors
        &&& a.ticker == b.ticker
    }

    /// Clears any previous results and installs the handle of a freshly
    /// started scan; the screen moves to the scanning phase.
    pub fn begin_scan(&mut self, scan: ActiveScan)
        requires
            !scan.done,
        ensures
            final(self).wf(),
            final(self).scan_live(),
            Self::same_scan_frame(*final(self), *old(self)),
            final(self).screen == Screen::Scanning,
            final(self).entries@.len() == 0,
            final(self).cursor is None,
            final(self).scan == Some(scan),
    {
        self.entries.clear();
        self.cursor = None;
        self.scan = Some(scan);
        self.screen = Screen::Scanning;
    }

    /// Applies one scan event. A find is appended to the list, selected
    /// exactly when it is safe. The terminal event marks the scan finished,
    /// sorts the list largest-first, and moves the screen on: to the list
    /// with the first row highlighted when something was found, straight to
    /// the summary when nothing was. Returns whether the event was the
    /// terminal one.
    pub fn apply_scan_msg(&mut self, msg: &ScanMsg) -> (finished: bool)
        requires
            old(self).wf(),
            old(self).scan_live(),
        ensures
            final(self).wf(),
            Self::same_scan_frame(*final(self), *old(self)),
            Self::scan_handle_kept(*old(self), *final(self)),
            match *msg {
                ScanMsg::Found { ref path, size, sensitive, last_modified } => {
                    &&& !finished
                    &&& final(self).scan == old(self).scan
                    &&& final(self).screen == old(self).screen
                    &&& final(self).cursor == old(self).cursor
                    &&& views_of(final(self).entries@) == views_of(old(self).entries@).push(
                        (EntryModel { path: path@, size, sensitive, selected: !sensitive, last_modified }),
                    )
                },
                ScanMsg::Done => {
                    &&& finished
                    &&& !final(self).scan_live()
                    &&& views_of(final(self).entries@).to_multiset() == views_of(
                        old(self).entries@,
                    ).to_multiset()
                    &&& final(self).entries@.len() == old(self).entries@.len()
                    &&& spec_sorted_desc(views_of(final(self).entries@))
                    &&& (final(self).entries@.len() == 0 ==> final(self).screen == Screen::Done
                        && final(self).cursor == old(self).cursor)
                    &&& (final(self).entries@.len() > 0 ==> final(self).screen == Screen::List
                        && final(self).cursor == Some(0usize))
                },
            },
    {
        match msg {
            ScanMsg::Found { path, size, sensitive, last_modified } => {
                let ghost entries0 = self.entries@;
                let entry = NodeModuleEntry::new(path.clone(), *size, *sensitive, *last_modified);
                self.entries.push(entry);
                proof {
                    assert(views_of(self.entries@) =~= views_of(entries0).push(entry@));
                }
                false
            },
            ScanMsg::Done => {
                if let Some(s) = &mut self.scan {
                    s.done = true;
                }
                sort_entries_desc(&mut self.entries);
                if self.entries.len() == 0 {
                    self.screen = Screen::Done;
                } else {
                    self.cursor = Some(0);
                    self.screen = Screen::List;
                }
                true
            },
        }
    }

    /// Drains every scan event that has arrived since the last tick, without
    /// blocking, and applies each in order (`Self::apply_scan_msg`): every
    /// find is appended to the list with its creation default, and the
    /// terminal event — at most one arrives — sorts the list largest-first
    /// and moves the screen on, to the list when something was found and
    /// straight to the summary when nothing was. Whatever the worker sent,
    /// the delete counters, the scan root and the ticker are untouched, and
    /// nothing happens at all when no scan is live.
    pub fn process_scan_messages(&mut self)
        requires
            old(self).wf(),
        ensures
            final(self).wf(),
            !old(self).scan_live() ==> *final(self) == *old(self),
            old(self).scan_live() ==> Self::same_scan_frame(*final(self), *old(self))
                && Self::scan_handle_kept(*old(self), *final(self)) && exists|news: Seq<EntryModel>|
                #[trigger] entry_defaults_hold(news) && ({
                    let combined = views_of(old(self).entries@) + news;
                    if final(self).scan_live() {
                        &&& views_of(final(self).entries@) == combined
                        &&& final(self).screen == old(self).screen
                        &&& final(self).cursor == old(self).cursor
                    } else {
                        &&& views_of(final(self).entries@).to_multiset() == combined.to_multiset()
                        &&& final(self).entries@.len() == combined.len()
                        &&& spec_sorted_desc(views_of(final(self).entries@))
                        &&& (final(self).entries@.len() == 0 ==> final(self).screen == Screen::Done
                            && final(self).cursor == old(self).cursor)
                        &&& (final(self).entries@.len() > 0 ==> final(self).screen == Screen::List
                            && final(self).cursor == Some(0usize))
                    }
                }),
    {
        let live = match &self.scan {
            Some(s) => !s.done,
            None => false,
        };
        if !live {
            return ;
        }
        let msgs = match &self.scan {
            Some(s) => crate::channel::drain_channel(&s.rx),
            None => Vec::new(),
        };
        let ghost mut news: Seq<EntryModel> = Seq::empty();
        proof {
            assert(views_of(self.entries@) =~= views_of(old(self).entries@) + news);
        }
        let mut finished = false;
        let mut i: usize = 0;
        while i < msgs.len() && !finished
            invariant
                i <= msgs@.len(),
                old(self).wf(),
                old(self).scan_live(),
                self.wf(),
                Self::same_scan_frame(*self, *old(self)),
                Self::scan_handle_kept(*old(self), *self),
                entry_defaults_hold(news),
                !finished ==> self.scan == old(self).scan && self.screen == old(self).screen
                    && self.cursor == old(self).cursor && views_of(self.entries@) == views_of(
                    old(self).entries@,
                ) + news,
                finished ==> !self.scan_live() && views_of(self.entries@).to_multiset() == (
                views_of(old(self).entries@) + news).to_multiset() && self.entries@.len() == (
                views_of(old(self).entries@) + news).len() && spec_sorted_desc(
                    views_of(self.entries@),
                ) && (self.entries@.len() == 0 ==> self.screen == Screen::Done && self.cursor
                    == old(self).cursor) && (self.entries@.len() > 0 ==> self.screen
                    == Screen::List && self.cursor == Some(0usize)),
            decreases msgs@.len() - i,
        {
            let ghost before = views_of(self.entries@);
            finished = self.apply_scan_msg(&msgs[i]);
            proof {
                match msgs@[i as int] {
                    ScanMsg::Found { path, size, sensitive, last_modified } => {
                        let m = EntryModel {
                            path: path@,
                            size,
                            sensitive,
                            selected: !sensitive,
                            last_modified,
                        };
                        news = news.push(m);
                        assert(views_of(self.entries@) =~= views_of(old(self).entries@) + news);
                    },
                    ScanMsg::Done => {},
                }
            }
            i = i + 1;
        }
        proof {
            assert(entry_defaults_hold(news) && ({
                let combined = views_of(old(self).entries@) + news;
                if self.scan_live() {
                    &&& views_of(self.entries@) == combined
                    &&& self.screen == old(self).screen
                    &&& self.cursor == old(self).cursor
                } else {
                    &&& views_of(self.entries@).to_multiset() == combined.to_multiset()
                    &&& self.entries@.len() == combined.len()
                    &&& spec_sorted_desc(views_of(self.entries@))
                    &&& (self.entries@.len() == 0 ==> self.screen == Screen::Done && self.cursor
                        == old(self).cursor)
                    &&& (self.entries@.len() > 0 ==> self.screen == Screen::List && self.cursor
                        == Some(0usize))
                }
            }));
        }
    }

    /// The path the scan worker is visiting right now, for the live
    /// progress readout; empty when no scan is active or the shared cell is
    /// unavailable this instant.
    pub fn current_scanning_path(&self) -> (r: String)
        ensures
            self.scan is None ==> r@.len() == 0,
    {
        match &self.scan {
            Some(s) => match crate::channel::read_shared_string(&s.current_path) {
                Some(p) => p,
                None => String::new(),
            },
            None => String::new(),
        }
    }
}

// ─── Confirmation and deletion lifecycle ──────────────────────────────────────

impl App {
    /// Everything but the screen is the same in `a` and `b`.
    pub open spec fn same_except_screen(a: App, b: App) -> bool {
        &&& Self::same_scan_frame(a, b)
        &&& a.entries == b.entries
        &&& a.cursor == b.cursor
        &&& a.scan == b.scan
    }

    /// The operator asks to delete: from the list screen, and only when at
    /// least one entry is selected, the confirmation popup comes up; in
    /// every other state nothing happens.
    pub fn request_delete(&mut self)
        requires
            old(self).wf(),
        ensures
            final(self).wf(),
            Self::same_except_screen(*final(self), *old(self)),
            final(self).screen == (if old(self).screen is List && spec_selected_count(
                views_of(old(self).entries@),
            ) > 0 {
                Screen::Confirming
            } else {
                old(self).screen
            }),
    {
        match self.screen {
            Screen::List => {
                if self.selected_count() > 0 {
                    self.screen = Screen::Confirming;
                }
            },
            _ => {},
        }
    }

    /// The operator cancels the confirmation popup and returns to the list;
    /// in every other state nothing happens.
    pub fn cancel_delete(&mut self)
        requires
            old(self).wf(),
        ensures
            final(self).wf(),
            Self::same_except_screen(*final(self), *old(self)),
            final(self).screen == (if old(self).screen is Confirming {
                Screen::List
            } else {
                old(self).screen
            }),
    {
        match self.screen {
            Screen::Confirming => {
                self.screen = Screen::List;
            },
            _ => {},
        }
    }

    /// A delete run is in flight.
    pub open spec fn delete_live(self) -> bool {
        self.delete_rx is Some
    }

    /// Installs the handle of a freshly started delete run over the
    /// currently selected entries: every counter starts from zero — a new
    /// run never inherits state — the target count is the number of
    /// selected entries, and the screen moves to the deleting phase.
    pub fn begin_delete(&mut self, rx: std::sync::mpsc::Receiver<DeleteMsg>)
        requires
            old(self).wf(),
        ensures
            final(self).wf(),
            final(self).entries == old(self).entries,
            final(self).cursor == old(self).cursor,
            final(self).scan == old(self).scan,
            final(self).scan_root == old(self).scan_root,
            final(self).ticker == old(self).ticker,
            final(self).screen == Screen::Deleting,
            final(self).delete_rx == Some(rx),
            final(self).delete_total as int == spec_selected_count(views_of(old(self).entries@)),
            final(self).delete_done == 0,
            final(self).delete_current@.len() == 0,
            final(self).delete_freed == 0,
            final(self).delete_errors@.len() == 0,
    {
        self.delete_total = self.selected_count();
        self.delete_done = 0;
        self.delete_current = String::new();
        self.delete_freed = 0;
        self.delete_errors.clear();
        self.delete_rx = Some(rx);
        self.screen = Screen::Deleting;
    }

    /// Applies one delete event. A progress event names the path now being
    /// removed and advances the done counter; the terminal event — at most
    /// one arrives — copies the final freed-bytes total and error list,
    /// drops the endpoint, and moves to the summary screen. Returns whether
    /// the event was the terminal one.
    pub fn apply_delete_msg(&mut self, msg: &DeleteMsg) -> (finished: bool)
        requires
            old(self).wf(),
        ensures
            final(self).wf(),
            final(self).entries == old(self).entries,
            final(self).cursor == old(self).cursor,
            final(self).scan == old(self).scan,
            final(self).scan_root == old(self).scan_root,
            final(self).ticker == old(self).ticker,
            final(self).delete_total == old(self).delete_total,
            match *msg {
                DeleteMsg::Progress(ref path) => {
                    &&& !finished
                    &&& final(self).delete_current@ == path@
                    &&& final(self).delete_done == (if old(self).delete_done < usize::MAX {
                        old(self).delete_done + 1
                    } else {
                        old(self).delete_done as int
                    })
                    &&& final(self).delete_freed == old(self).delete_freed
                    &&& final(self).delete_errors == old(self).delete_errors
                    &&& final(self).delete_rx == old(self).delete_rx
                    &&& final(self).screen == old(self).screen
                },
                DeleteMsg::Done { freed, ref errors } => {
                    &&& finished
                    &&& final(self).delete_freed == freed
                    &&& final(self).delete_errors.deep_view() == errors.deep_view()
                    &&& final(self).delete_rx is None
                    &&& final(self).screen == Screen::Done
                    &&& final(self).delete_done == old(self).delete_done
                    &&& final(self).delete_current == old(self).delete_current
                },
            },
    {
        broadcast use vstd::std_specs::vec::vec_clone_deep_view_proof;

        match msg {
            DeleteMsg::Progress(path) => {
                self.delete_current = path.clone();
                if self.delete_done < usize::MAX {
                    self.delete_done = self.delete_done + 1;
                }
                false
            },
            DeleteMsg::Done { freed, errors } => {
                self.delete_freed = *freed;
                self.delete_errors = errors.clone();
                self.delete_rx = None;
                self.screen = Screen::Done;
                true
            },
        }
    }

    /// Drains every delete event that has arrived since the last tick,
    /// without blocking, and applies each in order (`Self::apply_delete_msg`):
    /// progress events advance the counter and the "currently removing"
    /// path, and the terminal event records the final totals and moves to
    /// the summary screen. The entry list, the scan state and the ticker
    /// are untouched whatever arrives, and nothing happens at all when no
    /// delete run is live.
    pub fn process_delete_messages(&mut self)
        requires
            old(self).wf(),
        ensures
            final(self).wf(),
            old(self).delete_rx is None ==> *final(self) == *old(self),
            final(self).entries == old(self).entries,
            final(self).cursor == old(self).cursor,
            final(self).scan == old(self).scan,
            final(self).scan_root == old(self).scan_root,
            final(self).ticker == old(self).ticker,
            final(self).delete_total == old(self).delete_total,
            final(self).delete_done >= old(self).delete_done,
            final(self).delete_rx is Some ==> final(self).delete_rx == old(self).delete_rx
                && final(self).screen == old(self).screen && final(self).delete_freed == old(
                self,
            ).delete_freed && final(self).delete_errors == old(self).delete_errors,
            old(self).delete_rx is Some && final(self).delete_rx is None ==> final(self).screen
                == Screen::Done,
    {
        let live = match &self.delete_rx {
            Some(_) => true,
            None => false,
        };
        if !live {
            return ;
        }
        let msgs = match &self.delete_rx {
            Some(rx) => crate::channel::drain_channel(rx),
            None => Vec::new(),
        };
        let mut finished = false;
        let mut i: usize = 0;
        while i < msgs.len() && !finished
            invariant
                i <= msgs@.len(),
                old(self).wf(),
                self.wf(),
                self.entries == old(self).entries,
                self.cursor == old(self).cursor,
                self.scan == old(self).scan,
                self.scan_root == old(self).scan_root,
                self.ticker == old(self).ticker,
                self.delete_total == old(self).delete_total,
                self.delete_done >= old(self).delete_done,
                !finished ==> self.delete_rx == old(self).delete_rx && self.screen == old(
                    self,
                ).screen && self.delete_freed == old(self).delete_freed && self.delete_errors
                    == old(self).delete_errors,
                finished ==> self.delete_rx is None && self.screen == Screen::Done,
            decreases msgs@.len() - i,
        {
            finished = self.apply_delete_msg(&msgs[i]);
            i = i + 1;
        }
    }
}

/// The selected-size sum is never negative.
pub proof fn lemma_selected_size_nonneg(s: Seq<EntryModel>)
    ensures
        spec_selected_size(s) >= 0,
    decreases s.len(),
{
    if s.len() > 0 {
        lemma_selected_size_nonneg(s.drop_last());
    }
}

/// The total-size sum is never negative.
pub proof fn lemma_total_size_nonneg(s: Seq<EntryModel>)
    ensures
        spec_total_size(s) >= 0,
    decreases s.len(),
{
    if s.len() > 0 {
        lemma_total_size_nonneg(s.drop_last());
    }
}

} // verus!
