//! Application state and the decisions behind the interactive loop.
//!
//! The event loop, terminal drawing, key handling and process spawning
//! live outside the library; every decision they act on -- state
//! transitions, result navigation, selection, what to fetch, what to
//! open -- is made here.

use vstd::prelude::*;

use crate::prefetch::{
    fetch_queue, hit_count, lookup, observed_status, promote_move, promote_result,
    promote_update, submit_table, CacheProbe, PrefetchManager, PrefetchStatus, PromoteError,
    PromoteOutcome,
};
use crate::search::SearchResult;
use crate::text::dec_str;

verus! {

/// Messages sent from background tasks to the main loop.
#[derive(Debug)]
pub enum AppMessage {
    /// Search completed with results.
    SearchComplete(Vec<SearchResult>),
    /// Search failed with error.
    SearchError(String),
}

/// What the application is showing.
#[derive(Debug, Clone, Copy, PartialEq, Eq, Structural)]
pub enum AppState {
    /// User is typing a search query.
    Input,
    /// Performing a search.
    Searching,
    /// Showing search results (prefetching in the background).
    Results,
    /// Showing an error message.
    Error,
}

/// `x` occurs among the marked indices.
pub open spec fn has_idx(v: Seq<usize>, x: usize) -> bool {
    exists|i: int| 0 <= i < v.len() && v[i] == x
}

/// No index is marked twice.
pub open spec fn unique_idxs(v: Seq<usize>) -> bool {
    forall|i: int, j: int| 0 <= i < j < v.len() ==> v[i] != v[j]
}

/// The status line while a search runs.
pub open spec fn searching_note() -> Seq<char> {
    "Searching..."@
}

/// The status line once a search returned `n` results.
pub open spec fn found_note(n: int) -> Seq<char> {
    "Found "@ + dec_str(n) + " results. Prefetching..."@
}

/// The status line for prefetch progress.
pub open spec fn progress_note(completed: int, total: int) -> Seq<char> {
    if completed == total {
        "✓ All "@ + dec_str(total) + " pages ready!"@
    } else {
        "Prefetching: "@ + dec_str(completed) + "/"@ + dec_str(total)
    }
}

/// The status line after opening `n` results in the browser.
pub open spec fn opened_note(n: int) -> Seq<char> {
    "Opened "@ + dec_str(n) + " URL(s) in browser"@
}

/// The URLs of the results at the given indices, out-of-range indices
/// dropped.
pub open spec fn urls_of(results: Seq<SearchResult>, idxs: Seq<usize>) -> Seq<Seq<char>>
    decreases idxs.len(),
{
    if idxs.len() == 0 {
        Seq::empty()
    } else {
        let rest = urls_of(results, idxs.drop_last());
        if (idxs.last() as int) < results.len() {
            rest.push(results[idxs.last() as int].url@)
        } else {
            rest
        }
    }
}

/// The interactive application's state.
pub struct App {
    pub state: AppState,
    pub input: String,
    pub results: Vec<SearchResult>,
    pub selected_index: usize,
    pub scroll_offset: usize,
    pub selected_items: Vec<usize>,
    pub error_message: Option<String>,
    pub prefetch_manager: PrefetchManager,
    /// Status message shown in the UI.
    pub status_message: String,
}

impl App {
    /// The application's invariant: the manager is well-formed, the cursor
    /// points at a result whenever there are any, and no result is marked
    /// twice.
    pub open spec fn wf(self) -> bool {
        &&& self.prefetch_manager@.wf()
        &&& self.results@.len() > 0 ==> (self.selected_index as int) < self.results@.len()
        &&& self.results@.len() == 0 ==> self.selected_index == 0
        &&& unique_idxs(self.selected_items@)
    }

    /// A fresh application around a prefetch manager. The caller created
    /// the manager's directories and runs the startup cleanup sweep.
    pub fn new(prefetch_manager: PrefetchManager) -> (r: Self)
        requires
            prefetch_manager@.wf(),
        ensures
            r.wf(),
            r.state == AppState::Input,
            r.input@.len() == 0,
            r.results@.len() == 0,
            r.selected_items@.len() == 0,
            r.error_message is None,
            r.status_message@.len() == 0,
            r.prefetch_manager == prefetch_manager,
    {
        App {
            state: AppState::Input,
            input: String::new(),
            results: Vec::new(),
            selected_index: 0,
            scroll_offset: 0,
            selected_items: Vec::new(),
            error_message: None,
            prefetch_manager,
            status_message: String::new(),
        }
    }

    /// Start a search: clear results, selection and the previous batch.
    /// The caller removes the previous batch's staged artifact files.
    pub fn start_search(&mut self)
        requires
            old(self).wf(),
            old(self).prefetch_manager@.generation < u64::MAX,
        ensures
            final(self).wf(),
            final(self).state == AppState::Searching,
            final(self).results@.len() == 0,
            final(self).selected_index == 0,
            final(self).scroll_offset == 0,
            final(self).selected_items@.len() == 0,
            final(self).status_message@ == searching_note(),
            final(self).prefetch_manager@.table.len() == 0,
            final(self).prefetch_manager@.total == 0,
            final(self).prefetch_manager@.completed == 0,
            final(self).prefetch_manager@.generation == old(self).prefetch_manager@.generation
                + 1,
            final(self).prefetch_manager@.staging_dir == old(self).prefetch_manager@.staging_dir,
            final(self).prefetch_manager@.promoted_dir == old(
                self,
            ).prefetch_manager@.promoted_dir,
            final(self).input == old(self).input,
    {
        self.state = AppState::Searching;
        self.results = Vec::new();
        self.selected_index = 0;
        self.scroll_offset = 0;
        self.selected_items = Vec::new();
        self.status_message = String::from_str("Searching...");
        self.prefetch_manager.clear_current_search();
    }

    /// Record a finished search. With no results the application shows an
    /// error; otherwise it shows the results, submits them as the new
    /// prefetch batch, and returns the queue the caller must fetch.
    pub fn finish_search(&mut self, results: Vec<SearchResult>, probes: &Vec<CacheProbe>) -> (
        to_fetch: Vec<SearchResult>)
        requires
            old(self).wf(),
            old(self).prefetch_manager@.table.len() == 0,
            probes@.len() == results@.len(),
            crate::prefetch::distinct_urls(results@),
        ensures
            final(self).wf(),
            results@.len() == 0 ==> {
                &&& final(self).state == AppState::Error
                &&& final(self).error_message matches Some(m) && m@ == "No results found"@
                &&& final(self).prefetch_manager == old(self).prefetch_manager
                &&& to_fetch@.len() == 0
            },
            results@.len() > 0 ==> {
                &&& final(self).state == AppState::Results
                &&& final(self).results@ == results@
                &&& final(self).selected_index == 0
                &&& final(self).status_message@ == found_note(results@.len() as int)
                &&& final(self).prefetch_manager@.table == submit_table(
                    results@,
                    probes@,
                    old(self).prefetch_manager@.staging_dir,
                    old(self).prefetch_manager@.promoted_dir,
                )
                &&& final(self).prefetch_manager@.total == results@.len()
                &&& final(self).prefetch_manager@.completed == hit_count(probes@)
                &&& final(self).prefetch_manager@.generation == old(
                    self,
                ).prefetch_manager@.generation
                &&& to_fetch@ == fetch_queue(results@, probes@)
            },
    {
        if results.len() == 0 {
            self.error_message = Some(String::from_str("No results found"));
            self.state = AppState::Error;
            return Vec::new();
        }
        let count = results.len();
        self.results = results;
        self.state = AppState::Results;
        self.selected_index = 0;
        self.scroll_offset = 0;
        let mut note = String::from_str("Found ");
        let n = crate::text::usize_to_string(count);
        note.append(n.as_str());
        note.append(" results. Prefetching...");
        self.status_message = note;
        self.prefetch_manager.prefetch_all(&self.results, probes)
    }

    /// Refresh the progress line.
    pub fn update_prefetch_progress(&mut self, completed: usize, total: usize)
        ensures
            final(self).status_message@ == progress_note(completed as int, total as int),
            final(self).state == old(self).state,
            final(self).results == old(self).results,
            final(self).selected_index == old(self).selected_index,
            final(self).selected_items == old(self).selected_items,
            final(self).prefetch_manager == old(self).prefetch_manager,
            final(self).error_message == old(self).error_message,
            final(self).input == old(self).input,
    {
        if completed == total {
            let mut note = String::from_str("✓ All ");
            let t = crate::text::usize_to_string(total);
            note.append(t.as_str());
            note.append(" pages ready!");
            self.status_message = note;
        } else {
            let mut note = String::from_str("Prefetching: ");
            let c = crate::text::usize_to_string(completed);
            note.append(c.as_str());
            note.append("/");
            let t = crate::text::usize_to_string(total);
            note.append(t.as_str());
            self.status_message = note;
        }
    }

    /// Show an error message.
    pub fn show_error(&mut self, message: &str)
        ensures
            final(self).state == AppState::Error,
            final(self).error_message matches Some(m) && m@ == message@,
            final(self).results == old(self).results,
            final(self).selected_index == old(self).selected_index,
            final(self).selected_items == old(self).selected_items,
            final(self).prefetch_manager == old(self).prefetch_manager,
            final(self).input == old(self).input,
            final(self).status_message == old(self).status_message,
    {
        self.error_message = Some(String::from_str(message));
        self.state = AppState::Error;
    }

    /// Dismiss the error: back to the results if there are any, else to
    /// the input prompt.
    pub fn dismiss_error(&mut self)
        ensures
            final(self).error_message is None,
            final(self).state == if old(self).results@.len() == 0 {
                AppState::Input
            } else {
                AppState::Results
            },
            final(self).results == old(self).results,
            final(self).selected_index == old(self).selected_index,
            final(self).selected_items == old(self).selected_items,
            final(self).prefetch_manager == old(self).prefetch_manager,
            final(self).input == old(self).input,
            final(self).status_message == old(self).status_message,
    {
        self.error_message = None;
        self.state = if self.results.len() == 0 {
            AppState::Input
        } else {
            AppState::Results
        };
    }

    /// Move to the next result, wrapping around.
    pub fn next_result(&mut self)
        requires
            old(self).wf(),
        ensures
            final(self).wf(),
            old(self).results@.len() > 0 ==> final(self).selected_index == (old(
                self,
            ).selected_index + 1) as int % old(self).results@.len() as int,
            old(self).results@.len() == 0 ==> final(self).selected_index == old(
                self,
            ).selected_index,
            final(self).results == old(self).results,
            final(self).state == old(self).state,
            final(self).selected_items == old(self).selected_items,
            final(self).prefetch_manager == old(self).prefetch_manager,
    {
        if self.results.len() > 0 {
            self.selected_index = (self.selected_index + 1) % self.results.len();
        }
    }

    /// Move to the previous result, wrapping around.
    pub fn previous_result(&mut self)
        requires
            old(self).wf(),
        ensures
            final(self).wf(),
            old(self).results@.len() > 0 ==> final(self).selected_index == if old(
                self,
            ).selected_index == 0 {
                old(self).results@.len() - 1
            } else {
                old(self).selected_index - 1
            },
            old(self).results@.len() == 0 ==> final(self).selected_index == old(
                self,
            ).selected_index,
            final(self).results == old(self).results,
            final(self).state == old(self).state,
            final(self).selected_items == old(self).selected_items,
            final(self).prefetch_manager == old(self).prefetch_manager,
    {
        if self.results.len() > 0 {
            if self.selected_index == 0 {
                self.selected_index = self.results.len() - 1;
            } else {
                self.selected_index = self.selected_index - 1;
            }
        }
    }

    /// Jump to the first result.
    pub fn first_result(&mut self)
        requires
            old(self).wf(),
        ensures
            final(self).wf(),
            final(self).selected_index == 0,
            final(self).scroll_offset == 0,
            final(self).results == old(self).results,
            final(self).state == old(self).state,
            final(self).selected_items == old(self).selected_items,
            final(self).prefetch_manager == old(self).prefetch_manager,
    {
        self.selected_index = 0;
        self.scroll_offset = 0;
    }

    /// Jump to the last result.
    pub fn last_result(&mut self)
        requires
            old(self).wf(),
        ensures
            final(self).wf(),
            old(self).results@.len() > 0 ==> final(self).selected_index == old(
                self,
            ).results@.len() - 1,
            old(self).results@.len() == 0 ==> final(self).selected_index == old(
                self,
            ).selected_index,
            final(self).results == old(self).results,
            final(self).state == old(self).state,
            final(self).selected_items == old(self).selected_items,
            final(self).prefetch_manager == old(self).prefetch_manager,
    {
        if self.results.len() > 0 {
            self.selected_index = self.results.len() - 1;
        }
    }

    /// The scroll offset that keeps the cursor visible: with room for
    /// `visible_height` lines (four per item, two for the frame), the list
    /// scrolls once the cursor passes the last fully visible item.
    pub fn get_scroll_offset(&self, visible_height: usize) -> (r: usize)
        ensures
            ({
                let ips = (if visible_height >= 2 {
                    visible_height - 2
                } else {
                    0
                }) / 4;
                r == if ips >= 1 && self.selected_index >= ips {
                    self.selected_index - (ips - 1)
                } else {
                    0int
                }
            }),
    {
        let items_per_screen = (if visible_height >= 2 {
            visible_height - 2
        } else {
            0
        }) / 4;
        if items_per_screen >= 1 && self.selected_index >= items_per_screen {
            self.selected_index - (items_per_screen - 1)
        } else {
            0
        }
    }

    /// Mark the current result, or unmark it if it is already marked.
    pub fn toggle_selection(&mut self)
        requires
            old(self).wf(),
        ensures
            final(self).wf(),
            forall|x: usize|
                has_idx(final(self).selected_items@, x) <==> (if x == old(self).selected_index {
                    !has_idx(old(self).selected_items@, x)
                } else {
                    has_idx(old(self).selected_items@, x)
                }),
            final(self).results == old(self).results,
            final(self).selected_index == old(self).selected_index,
            final(self).state == old(self).state,
            final(self).prefetch_manager == old(self).prefetch_manager,
    {
        let sel = self.selected_index;
        let n = self.selected_items.len();
        let mut pos: usize = 0;
        let mut found = false;
        while pos < n && !found
            invariant
                n == self.selected_items@.len(),
                pos <= n,
                !found ==> forall|k: int|
                    0 <= k < pos ==> (#[trigger] self.selected_items@[k]) != sel,
                found ==> pos < n && self.selected_items@[pos as int] == sel,
            decreases n - pos + if found {
                0int
            } else {
                1int
            },
        {
            if self.selected_items[pos] == sel {
                found = true;
            } else {
                pos = pos + 1;
            }
        }
        if found {
            let ghost pre = self.selected_items@;
            self.selected_items.remove(pos);
            proof {
                assert forall|x: usize|
                    has_idx(self.selected_items@, x) <==> (if x == sel {
                        !has_idx(pre, x)
                    } else {
                        has_idx(pre, x)
                    }) by {
                    let cur = self.selected_items@;
                    if has_idx(cur, x) {
                        let i = choose|i: int| 0 <= i < cur.len() && cur[i] == x;
                        if i < pos {
                            assert(pre[i] == x);
                        } else {
                            assert(pre[i + 1] == x);
                        }
                    }
                    if x != sel && has_idx(pre, x) {
                        let i = choose|i: int| 0 <= i < pre.len() && pre[i] == x;
                        if i < pos {
                            assert(cur[i] == x);
                        } else {
                            assert(i != pos);
                            assert(cur[i - 1] == x);
                        }
                    }
                    if x == sel && has_idx(cur, x) {
                        let i = choose|i: int| 0 <= i < cur.len() && cur[i] == x;
                        if i < pos {
                            assert(pre[i] == sel && pre[pos as int] == sel);
                        } else {
                            assert(pre[i + 1] == sel && pre[pos as int] == sel);
                        }
                    }
                }
            }
        } else {
            let ghost pre = self.selected_items@;
            self.selected_items.push(sel);
            proof {
                assert forall|x: usize|
                    has_idx(self.selected_items@, x) <==> (if x == sel {
                        !has_idx(pre, x)
                    } else {
                        has_idx(pre, x)
                    }) by {
                    let cur = self.selected_items@;
                    assert(cur[cur.len() - 1] == sel);
                    if x != sel {
                        if has_idx(cur, x) {
                            let i = choose|i: int| 0 <= i < cur.len() && cur[i] == x;
                            assert(pre[i] == x);
                        }
                        if has_idx(pre, x) {
                            let i = choose|i: int| 0 <= i < pre.len() && pre[i] == x;
                            assert(cur[i] == x);
                        }
                    }
                }
            }
        }
    }

    /// The URLs to open in the browser: the marked results, or the current
    /// one when nothing is marked. Unmarks everything and reports how many
    /// were opened; the caller spawns the browser on each URL.
    pub fn open_in_browser(&mut self) -> (urls: Vec<String>)
        requires
            old(self).wf(),
        ensures
            final(self).wf(),
            ({
                let idxs = if old(self).selected_items@.len() == 0 {
                    seq![old(self).selected_index]
                } else {
                    old(self).selected_items@
                };
                &&& urls@.map_values(|s: String| s@) == urls_of(old(self).results@, idxs)
                &&& final(self).status_message@ == opened_note(idxs.len() as int)
            }),
            final(self).selected_items@.len() == 0,
            final(self).results == old(self).results,
            final(self).selected_index == old(self).selected_index,
            final(self).state == old(self).state,
            final(self).prefetch_manager == old(self).prefetch_manager,
    {
        let single = self.selected_items.len() == 0;
        let ghost idxs = if single {
            seq![self.selected_index]
        } else {
            self.selected_items@
        };
        let mut urls: Vec<String> = Vec::new();
        if single {
            if self.selected_index < self.results.len() {
                urls.push(self.results[self.selected_index].url.clone());
            }
            proof {
                assert(idxs.drop_last() =~= Seq::<usize>::empty());
                assert(urls_of(self.results@, Seq::<usize>::empty()) =~= Seq::<Seq<char>>::empty());
                assert(idxs.len() == 1 && idxs.last() == self.selected_index);
                assert(urls@.map_values(|s: String| s@) =~= urls_of(self.results@, idxs));
            }
        } else {
            let n = self.selected_items.len();
            let mut i: usize = 0;
            proof {
                assert(idxs.subrange(0, 0) =~= Seq::<usize>::empty());
                assert(urls@.map_values(|s: String| s@) =~= urls_of(
                    self.results@,
                    idxs.subrange(0, 0),
                ));
            }
            while i < n
                invariant
                    n == self.selected_items@.len(),
                    idxs == self.selected_items@,
                    i <= n,
                    urls@.map_values(|s: String| s@) == urls_of(
                        self.results@,
                        idxs.subrange(0, i as int),
                    ),
                decreases n - i,
            {
                let idx = self.selected_items[i];
                if idx < self.results.len() {
                    urls.push(self.results[idx].url.clone());
                }
                i = i + 1;
                proof {
                    let pfx = idxs.subrange(0, i as int);
                    assert(pfx.drop_last() =~= idxs.subrange(0, i - 1));
                    assert(pfx.last() == idxs[i - 1]);
                    assert(urls@.map_values(|s: String| s@) =~= urls_of(self.results@, pfx));
                }
            }
            proof {
                assert(idxs.subrange(0, n as int) =~= idxs);
            }
        }
        let count = if single {
            1
        } else {
            self.selected_items.len()
        };
        self.selected_items = Vec::new();
        let mut note = String::from_str("Opened ");
        let c = crate::text::usize_to_string(count);
        note.append(c.as_str());
        note.append(" URL(s) in browser");
        self.status_message = note;
        urls
    }

    /// Promote the current result's artifact so the caller can open it:
    /// the decision and the new path come from the manager; the caller
    /// performs the file move and launches the viewer.
    pub fn prepare_neovim_open(&mut self) -> (r: Result<PromoteOutcome, PromoteError>)
        requires
            old(self).wf(),
        ensures
            final(self).wf(),
            final(self).results == old(self).results,
            final(self).selected_index == old(self).selected_index,
            final(self).state == old(self).state,
            old(self).results@.len() == 0 ==> (r matches Err(e) && e@ is NotReady
                && final(self).prefetch_manager == old(self).prefetch_manager),
            old(self).results@.len() > 0 ==> {
                let url = old(self).results@[old(self).selected_index as int].url@;
                &&& final(self).prefetch_manager@ == promote_update(
                    old(self).prefetch_manager@,
                    url,
                )
                &&& match r {
                    Ok(o) => {
                        &&& promote_result(old(self).prefetch_manager@, url) matches Ok(pp)
                            && o.path@ == pp
                        &&& match o.moved {
                            None => promote_move(old(self).prefetch_manager@, url) is None,
                            Some((f, t)) => promote_move(old(self).prefetch_manager@, url)
                                == Some((f@, t@)),
                        }
                    },
                    Err(e) => promote_result(old(self).prefetch_manager@, url) matches Err(ev)
                        && e@ == ev,
                }
            },
    {
        if self.selected_index >= self.results.len() {
            return Err(PromoteError::NotReady);
        }
        let url = self.results[self.selected_index].url.clone();
        self.prefetch_manager.activate_page(url.as_str())
    }

    /// Back to the input prompt.
    pub fn back_to_input(&mut self)
        ensures
            final(self).state == AppState::Input,
            final(self).results == old(self).results,
            final(self).selected_index == old(self).selected_index,
            final(self).selected_items == old(self).selected_items,
            final(self).prefetch_manager == old(self).prefetch_manager,
            final(self).error_message == old(self).error_message,
            final(self).input == old(self).input,
            final(self).status_message == old(self).status_message,
    {
        self.state = AppState::Input;
    }

    /// Prefetch progress as `(completed, total)`.
    pub fn get_prefetch_progress(&self) -> (r: (usize, usize))
        ensures
            r.0 == self.prefetch_manager@.completed,
            r.1 == self.prefetch_manager@.total,
    {
        self.prefetch_manager.get_progress()
    }

    /// Prefetch status of one URL.
    pub fn get_prefetch_status(&self, url: &str) -> (r: PrefetchStatus)
        ensures
            r@ == observed_status(self.prefetch_manager@.table, url@),
    {
        self.prefetch_manager.get_status(url)
    }

    /// A snapshot of all prefetch statuses, for rendering.
    pub fn get_all_statuses(&self) -> (r: Vec<(String, PrefetchStatus)>)
        ensures
            r@.map_values(|p: (String, PrefetchStatus)| (p.0@, p.1@))
                == self.prefetch_manager@.table,
    {
        self.prefetch_manager.get_all_statuses()
    }
}

} // verus!
