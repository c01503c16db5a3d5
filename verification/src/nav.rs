//! The navigation state machine of the interactive editor: screens,
//! selection indices, the edit buffer, and the transition for every input
//! event.  The machine owns the document and drives it exclusively through
//! its mutation contract; outside work — listing a directory, reading a
//! file, writing the saved form — is returned to the caller as an action,
//! and its outcome is handed back through the dedicated methods.
use vstd::prelude::*;

use crate::config::{entry_views, BitcoinConfigFile, ConfigEntry, EntryModel};
use crate::config::rank_of;
use crate::schema::ConfigType;
use crate::text::{str_eq_chars, str_to_chars, chars_to_string};

verus! {

/// The screen the editor is on.
#[derive(Debug, Clone, Copy, PartialEq, Eq, Structural)]
pub enum Screen {
    Main,
    FileExplorer,
    Editing,
    EditingValue,
}

/// One decoded input event.
#[derive(Debug, Clone, Copy, PartialEq, Eq, Structural)]
pub enum NavEvent {
    Quit,
    Confirm,
    Cancel,
    Up,
    Down,
    NextSection,
    PrevSection,
    ToggleEnabled,
    Save,
    Backspace,
    Input(char),
}

/// Outside work the caller must perform after a step.
#[derive(Debug, Clone, Copy, PartialEq, Eq, Structural)]
pub enum NavAction {
    Idle,
    Quit,
    RefreshListing,
    EnterDirectory,
    OpenSelectedFile,
    Persist,
}

/// What one row of the file listing is.
#[derive(Debug, Clone, Copy, PartialEq, Eq, Structural)]
pub enum FileKind {
    Parent,
    Directory,
    File,
}

/// One row of the file listing, as plain values.
#[derive(Debug, Clone)]
pub struct FileRow {
    pub name: String,
    pub kind: FileKind,
}

/// A display section: a category name and the indices of the document
/// entries shown under it.
#[derive(Debug, Clone)]
pub struct Section {
    pub name: String,
    pub items: Vec<usize>,
}

/// The alphabetical order in which sections are shown, as display ranks.
pub open spec fn section_order() -> Seq<int> {
    seq![0, 8, 4, 5, 1, 2, 6, 3, 7]
}

/// The indices of the entries of one display rank, in document order,
/// starting the scan at `i`.
pub open spec fn rank_indices(entries: Seq<EntryModel>, r: int, i: int) -> Seq<usize>
    decreases entries.len() - i,
{
    if i < 0 || i >= entries.len() {
        Seq::empty()
    } else {
        (if rank_of(entries[i]) == r {
            seq![i as usize]
        } else {
            Seq::empty()
        }) + rank_indices(entries, r, i + 1)
    }
}

/// The next selection index after a wrapping step forward.
pub open spec fn next_wrap(i: int, n: int) -> int {
    if i + 1 >= n {
        0
    } else {
        i + 1
    }
}

/// The next selection index after a wrapping step backward.
pub open spec fn prev_wrap(i: int, n: int) -> int {
    if i == 0 {
        n - 1
    } else {
        i - 1
    }
}

/// The section index after pressing next-section `k` times.
pub open spec fn iter_next(s: int, n: int, k: nat) -> int
    decreases k,
{
    if k == 0 {
        s
    } else {
        next_wrap(iter_next(s, n, (k - 1) as nat), n)
    }
}

proof fn lemma_iter_next_mod(s: int, n: int, k: nat)
    requires
        0 <= s < n,
    ensures
        iter_next(s, n, k) == (s + k) % n,
    decreases k,
{
    if k == 0 {
        assert((s + 0) % n == s) by {
            vstd::arithmetic::div_mod::lemma_small_mod(s as nat, n as nat);
        }
    } else {
        lemma_iter_next_mod(s, n, (k - 1) as nat);
        let m = (s + k - 1) % n;
        vstd::arithmetic::div_mod::lemma_mod_bound(s + k - 1, n);
        if m + 1 >= n {
            assert(m == n - 1);
            assert((s + k) % n == 0) by {
                vstd::arithmetic::div_mod::lemma_fundamental_div_mod(s + k - 1, n);
                let q = (s + k - 1) / n;
                vstd::arithmetic::mul::lemma_mul_is_distributive_add(n, q, 1);
                assert(s + k == n * (q + 1));
                vstd::arithmetic::div_mod::lemma_mod_multiples_vanish(q + 1, 0, n);
                vstd::arithmetic::div_mod::lemma_small_mod(0, n as nat);
            }
        } else {
            assert((s + k) % n == m + 1) by {
                vstd::arithmetic::div_mod::lemma_fundamental_div_mod(s + k - 1, n);
                assert(s + k == n * ((s + k - 1) / n) + (m + 1));
                vstd::arithmetic::div_mod::lemma_mod_multiples_vanish((s + k - 1) / n, m + 1, n);
                vstd::arithmetic::div_mod::lemma_small_mod((m + 1) as nat, n as nat);
            }
        }
    }
}

/// Pressing next-section as many times as there are sections returns the
/// selection to the section it started on; each press resets the selected
/// item.
pub proof fn lemma_next_section_cycle(s: int, n: int)
    requires
        0 <= s < n,
    ensures
        iter_next(s, n, n as nat) == s,
{
    lemma_iter_next_mod(s, n, n as nat);
    vstd::arithmetic::div_mod::lemma_mod_add_multiples_vanish(s, n);
    vstd::arithmetic::div_mod::lemma_small_mod(s as nat, n as nat);
}

/// The navigation state machine.  It owns the open document, the display
/// sections over it, and the file listing handed in by the caller.
pub struct Navigator {
    pub screen: Screen,
    pub selected_section: usize,
    pub selected_item: usize,
    pub edit_buffer: Vec<char>,
    pub notification: Option<String>,
    pub file_cursor: usize,
    pub files: Vec<FileRow>,
    pub doc: BitcoinConfigFile,
    pub sections: Vec<Section>,
}

impl Navigator {
    /// The machine's structural invariant: every section is non-empty and
    /// points inside the document, and the selection indices are in range.
    pub open spec fn wf(&self) -> bool {
        &&& forall|s: int|
            0 <= s < self.sections@.len() ==> (#[trigger] self.sections@[s]).items@.len() > 0
        &&& forall|s: int, t: int|
            0 <= s < self.sections@.len() && 0 <= t < self.sections@[s].items@.len() ==> (
            #[trigger] self.sections@[s].items@[t]) < self.doc.entries@.len()
        &&& if self.sections@.len() > 0 {
            self.selected_section < self.sections@.len() && self.selected_item
                < self.sections@[self.selected_section as int].items@.len()
        } else {
            self.selected_section == 0 && self.selected_item == 0
        }
        &&& if self.files@.len() > 0 {
            self.file_cursor < self.files@.len()
        } else {
            self.file_cursor == 0
        }
    }

    /// The document entry the selection currently addresses.
    pub open spec fn addressed(&self) -> int {
        self.sections@[self.selected_section as int].items@[self.selected_item as int] as int
    }
}

/// Whether this entry answers to a boolean-kind catalog record.
pub open spec fn is_boolean_kind(e: EntryModel) -> bool {
    match e.schema {
        Some(s) => s.config_type == ConfigType::Bool,
        None => false,
    }
}

fn entry_is_boolean(e: &ConfigEntry) -> (r: bool)
    ensures
        r == is_boolean_kind(e@),
{
    match &e.schema {
        Some(s) => {
            let t = s.config_type;
            t == ConfigType::Bool
        },
        None => false,
    }
}

/// The flipped form of a boolean value's text: `"1"` becomes `"0"`, and
/// anything else becomes `"1"`.
pub open spec fn flipped(v: Seq<char>) -> Seq<char> {
    if v == "1"@ {
        "0"@
    } else {
        "1"@
    }
}

fn flip_value(v: &String) -> (r: String)
    ensures
        r@ == flipped(v@),
{
    let one = str_to_chars("1");
    if str_eq_chars(v.as_str(), &one) {
        let zero = str_to_chars("0");
        chars_to_string(&zero)
    } else {
        chars_to_string(&one)
    }
}


/// Mathematical model of one display section.
#[verifier::ext_equal]
pub ghost struct SectionModel {
    pub name: Seq<char>,
    pub items: Seq<usize>,
}

impl View for Section {
    type V = SectionModel;

    open spec fn view(&self) -> SectionModel {
        SectionModel { name: self.name@, items: self.items@ }
    }
}

/// The models of a vector of sections.
pub open spec fn section_views(s: Seq<Section>) -> Seq<SectionModel> {
    s.map_values(|x: Section| x@)
}

/// The name of the `i`-th section in display order.
pub open spec fn section_name(i: int) -> Seq<char> {
    if i == 0 {
        "Core"@
    } else if i == 1 {
        "Custom"@
    } else if i == 2 {
        "Debugging"@
    } else if i == 3 {
        "Mining"@
    } else if i == 4 {
        "Network"@
    } else if i == 5 {
        "RPC"@
    } else if i == 6 {
        "Relay"@
    } else {
        "Wallet"@
    }
}

/// The display sections a document yields, from display position `i` on:
/// one per non-empty group, named alphabetically, holding the indices of
/// its entries in document order.
pub open spec fn spec_sections(entries: Seq<EntryModel>, i: int) -> Seq<SectionModel>
    decreases 9 - i,
{
    if i < 0 || i >= 9 {
        Seq::empty()
    } else {
        let items = rank_indices(entries, section_order()[i], 0);
        (if items.len() > 0 {
            seq![SectionModel { name: if i == 8 { "ZMQ"@ } else { section_name(i) }, items }]
        } else {
            Seq::empty()
        }) + spec_sections(entries, i + 1)
    }
}

proof fn lemma_rank_indices_bounds(entries: Seq<EntryModel>, r: int, i: int)
    ensures
        forall|j: int|
            0 <= j < rank_indices(entries, r, i).len() ==> (#[trigger] rank_indices(
                entries,
                r,
                i,
            )[j]) < entries.len(),
    decreases entries.len() - i,
{
    if 0 <= i < entries.len() {
        lemma_rank_indices_bounds(entries, r, i + 1);
        let whole = rank_indices(entries, r, i);
        let head: Seq<usize> = if rank_of(entries[i]) == r {
            seq![i as usize]
        } else {
            Seq::empty()
        };
        let rest = rank_indices(entries, r, i + 1);
        assert forall|j: int| 0 <= j < whole.len() implies whole[j] < entries.len() by {
            if j < head.len() {
                assert(whole[j] == head[j]);
            } else {
                assert(whole[j] == rest[j - head.len()]);
            }
        }
    }
}

fn rank_indices_exec(entries: &Vec<ConfigEntry>, r: usize) -> (out: Vec<usize>)
    ensures
        out@ == rank_indices(entry_views(entries@), r as int, 0),
{
    let ghost ev = entry_views(entries@);
    let mut out: Vec<usize> = Vec::new();
    let mut i: usize = 0;
    proof {
        assert(out@ + rank_indices(ev, r as int, 0) =~= rank_indices(ev, r as int, 0));
        assert(ev.len() == entries@.len());
    }
    while i < entries.len()
        invariant
            i <= entries@.len(),
            ev == entry_views(entries@),
            ev.len() == entries@.len(),
            rank_indices(ev, r as int, 0) == out@ + rank_indices(ev, r as int, i as int),
        decreases entries@.len() - i,
    {
        let ghost prev = out@;
        let e = &entries[i];
        if crate::config::rank_of_exec(e) == r {
            out.push(i);
            proof {
                assert(rank_indices(ev, r as int, i as int) =~= seq![i as usize] + rank_indices(
                    ev,
                    r as int,
                    i as int + 1,
                ));
                assert(prev + rank_indices(ev, r as int, i as int) =~= out@ + rank_indices(
                    ev,
                    r as int,
                    i as int + 1,
                ));
            }
        } else {
            proof {
                assert(rank_indices(ev, r as int, i as int) =~= Seq::<usize>::empty()
                    + rank_indices(ev, r as int, i as int + 1));
                assert(prev + rank_indices(ev, r as int, i as int) =~= out@ + rank_indices(
                    ev,
                    r as int,
                    i as int + 1,
                ));
            }
        }
        i += 1;
    }
    proof {
        assert(rank_indices(ev, r as int, entries@.len() as int) =~= Seq::<usize>::empty());
        assert(out@ + Seq::<usize>::empty() =~= out@);
    }
    out
}

/// Rebuilds the display sections of a document: category groups sorted by
/// name, `Custom` for the schema-less entries, empty groups left out.
fn build_sections(entries: &Vec<ConfigEntry>) -> (out: Vec<Section>)
    ensures
        section_views(out@) == spec_sections(entry_views(entries@), 0),
        forall|s: int| 0 <= s < out@.len() ==> (#[trigger] out@[s]).items@.len() > 0,
        forall|s: int, t: int|
            0 <= s < out@.len() && 0 <= t < out@[s].items@.len() ==> (
            #[trigger] out@[s].items@[t]) < entries@.len(),
{
    let ghost ev = entry_views(entries@);
    let mut out: Vec<Section> = Vec::new();
    let ranks: Vec<usize> = vec![0, 8, 4, 5, 1, 2, 6, 3, 7];
    let mut i: usize = 0;
    proof {
        assert(section_views(out@) =~= Seq::<SectionModel>::empty());
        assert(section_views(out@) + spec_sections(ev, 0) =~= spec_sections(ev, 0));
        assert(ev.len() == entries@.len());
    }
    while i < 9
        invariant
            i <= 9,
            ev == entry_views(entries@),
            ev.len() == entries@.len(),
            ranks@ == seq![0usize, 8usize, 4usize, 5usize, 1usize, 2usize, 6usize, 3usize, 7usize],
            spec_sections(ev, 0) == section_views(out@) + spec_sections(ev, i as int),
            forall|s: int| 0 <= s < out@.len() ==> (#[trigger] out@[s]).items@.len() > 0,
            forall|s: int, t: int|
                0 <= s < out@.len() && 0 <= t < out@[s].items@.len() ==> (
                #[trigger] out@[s].items@[t]) < entries@.len(),
        decreases 9 - i,
    {
        let ghost prev = section_views(out@);
        proof {
            assert(ranks@[i as int] as int == section_order()[i as int]);
        }
        let items = rank_indices_exec(entries, ranks[i]);
        proof {
            lemma_rank_indices_bounds(ev, section_order()[i as int], 0);
        }
        if items.len() > 0 {
            let name = if i == 0 {
                "Core"
            } else if i == 1 {
                "Custom"
            } else if i == 2 {
                "Debugging"
            } else if i == 3 {
                "Mining"
            } else if i == 4 {
                "Network"
            } else if i == 5 {
                "RPC"
            } else if i == 6 {
                "Relay"
            } else if i == 7 {
                "Wallet"
            } else {
                "ZMQ"
            };
            let sec = Section { name: name.to_owned(), items };
            proof {
                assert(sec@.items.len() > 0);
            }
            out.push(sec);
            proof {
                assert(spec_sections(ev, i as int) =~= seq![
                    SectionModel {
                        name: if i == 8 { "ZMQ"@ } else { section_name(i as int) },
                        items: rank_indices(ev, section_order()[i as int], 0),
                    },
                ] + spec_sections(ev, i as int + 1));
                assert(section_views(out@) =~= prev.push(
                    SectionModel {
                        name: if i == 8 { "ZMQ"@ } else { section_name(i as int) },
                        items: rank_indices(ev, section_order()[i as int], 0),
                    },
                ));
                assert(prev + spec_sections(ev, i as int) =~= section_views(out@)
                    + spec_sections(ev, i as int + 1));
            }
        } else {
            proof {
                assert(spec_sections(ev, i as int) =~= Seq::<SectionModel>::empty()
                    + spec_sections(ev, i as int + 1));
                assert(prev + spec_sections(ev, i as int) =~= section_views(out@)
                    + spec_sections(ev, i as int + 1));
            }
        }
        i += 1;
    }
    proof {
        assert(spec_sections(ev, 9) =~= Seq::<SectionModel>::empty());
        assert(section_views(out@) + Seq::<SectionModel>::empty() =~= section_views(out@));
    }
    out
}

impl Navigator {
    /// A fresh machine on the `Main` screen, holding a default document.
    pub fn new() -> (r: Self)
        ensures
            r.wf(),
            r.screen == Screen::Main,
            r.selected_section == 0,
            r.selected_item == 0,
            r.file_cursor == 0,
            r.edit_buffer@ == Seq::<char>::empty(),
            r.notification is None,
            r.files@.len() == 0,
            r.doc@.entries == crate::config::default_entries(),
            section_views(r.sections@) == spec_sections(r.doc@.entries, 0),
    {
        let doc = BitcoinConfigFile::new("");
        let sections = build_sections(&doc.entries);
        let r = Navigator {
            screen: Screen::Main,
            selected_section: 0,
            selected_item: 0,
            edit_buffer: Vec::new(),
            notification: None,
            file_cursor: 0,
            files: Vec::new(),
            doc,
            sections,
        };
        r
    }

    /// Installs a fresh directory listing; the cursor returns to the top.
    pub fn set_listing(&mut self, files: Vec<FileRow>)
        requires
            old(self).wf(),
        ensures
            final(self).wf(),
            final(self).files == files,
            final(self).file_cursor == 0,
            final(self).screen == old(self).screen,
            final(self).doc == old(self).doc,
            final(self).sections == old(self).sections,
            final(self).selected_section == old(self).selected_section,
            final(self).selected_item == old(self).selected_item,
            final(self).edit_buffer == old(self).edit_buffer,
            final(self).notification == old(self).notification,
    {
        self.files = files;
        self.file_cursor = 0;
    }

    /// Installs a freshly parsed document: the sections are rebuilt, both
    /// selection indices return to the top, and the editor screen opens.
    pub fn load_document(&mut self, doc: BitcoinConfigFile)
        requires
            old(self).wf(),
        ensures
            final(self).wf(),
            final(self).doc == doc,
            section_views(final(self).sections@) == spec_sections(doc@.entries, 0),
            final(self).screen == Screen::Editing,
            final(self).selected_section == 0,
            final(self).selected_item == 0,
            final(self).files == old(self).files,
            final(self).file_cursor == old(self).file_cursor,
            final(self).notification == old(self).notification,
    {
        let sections = build_sections(&doc.entries);
        self.doc = doc;
        self.sections = sections;
        self.selected_section = 0;
        self.selected_item = 0;
        self.screen = Screen::Editing;
        proof {
            assert(entry_views(self.doc.entries@) == self.doc@.entries);
        }
    }

    /// Records the outcome of persisting the document: a one-shot
    /// notification in either case.
    pub fn save_result(&mut self, ok: bool)
        requires
            old(self).wf(),
        ensures
            final(self).wf(),
            ok ==> (final(self).notification matches Some(m) && m@ == "Configuration saved"@),
            !ok ==> (final(self).notification matches Some(m) && m@
                == "Failed to save configuration"@),
            final(self).screen == old(self).screen,
            final(self).doc == old(self).doc,
            final(self).sections == old(self).sections,
            final(self).files == old(self).files,
            final(self).file_cursor == old(self).file_cursor,
            final(self).selected_section == old(self).selected_section,
            final(self).selected_item == old(self).selected_item,
            final(self).edit_buffer == old(self).edit_buffer,
    {
        if ok {
            self.notification = Some("Configuration saved".to_owned());
        } else {
            self.notification = Some("Failed to save configuration".to_owned());
        }
    }
}



impl Navigator {
    /// Handles one input event: the transition table of the editor.  The
    /// returned action names the outside work the caller must perform;
    /// any event without a row in the table for the current screen is
    /// ignored.  A pending notification is cleared by every input that is
    /// not itself a save.
    pub fn handle_event(&mut self, ev: NavEvent) -> (act: NavAction)
        requires
            old(self).wf(),
        ensures
            final(self).wf(),
            final(self).sections == old(self).sections,
            final(self).files == old(self).files,
            (ev matches NavEvent::Save) ==> final(self).notification == old(self).notification,
            !(ev matches NavEvent::Save) ==> final(self).notification is None,
            final(self).doc.path == old(self).doc.path,
            (match (old(self).screen, ev) {
                (Screen::Main, NavEvent::Quit) => {
                    &&& act == NavAction::Quit
                    &&& final(self).screen == Screen::Main
                    &&& final(self).unmoved(old(self)) && final(self).doc == old(self).doc
                },
                (Screen::Main, NavEvent::Confirm) => {
                    &&& act == NavAction::RefreshListing
                    &&& final(self).screen == Screen::FileExplorer
                    &&& final(self).unmoved(old(self)) && final(self).doc == old(self).doc
                },
                (Screen::FileExplorer, NavEvent::Cancel) => {
                    &&& act == NavAction::Idle
                    &&& final(self).screen == Screen::Main
                    &&& final(self).unmoved(old(self)) && final(self).doc == old(self).doc
                },
                (Screen::FileExplorer, NavEvent::Up) => {
                    &&& act == NavAction::Idle
                    &&& final(self).screen == Screen::FileExplorer
                    &&& final(self).doc == old(self).doc
                    &&& final(self).edit_buffer == old(self).edit_buffer
                    &&& final(self).selected_section == old(self).selected_section
                    &&& final(self).selected_item == old(self).selected_item
                    &&& final(self).file_cursor as int == (if old(self).files@.len() == 0 {
                        0
                    } else {
                        prev_wrap(old(self).file_cursor as int, old(self).files@.len() as int)
                    })
                },
                (Screen::FileExplorer, NavEvent::Down) => {
                    &&& act == NavAction::Idle
                    &&& final(self).screen == Screen::FileExplorer
                    &&& final(self).doc == old(self).doc
                    &&& final(self).edit_buffer == old(self).edit_buffer
                    &&& final(self).selected_section == old(self).selected_section
                    &&& final(self).selected_item == old(self).selected_item
                    &&& final(self).file_cursor as int == (if old(self).files@.len() == 0 {
                        0
                    } else {
                        next_wrap(old(self).file_cursor as int, old(self).files@.len() as int)
                    })
                },
                (Screen::FileExplorer, NavEvent::Confirm) => {
                    &&& final(self).screen == Screen::FileExplorer
                    &&& final(self).doc == old(self).doc
                    &&& final(self).edit_buffer == old(self).edit_buffer
                    &&& final(self).selected_section == old(self).selected_section
                    &&& final(self).selected_item == old(self).selected_item
                    &&& if old(self).files@.len() == 0 {
                        act == NavAction::Idle && final(self).file_cursor == old(self).file_cursor
                    } else {
                        match old(self).files@[old(self).file_cursor as int].kind {
                            FileKind::File => act == NavAction::OpenSelectedFile && final(self).file_cursor == old(self).file_cursor,
                            _ => act == NavAction::EnterDirectory && final(self).file_cursor == 0,
                        }
                    }
                },
                (Screen::Editing, NavEvent::Cancel) => {
                    &&& act == NavAction::Idle
                    &&& final(self).screen == Screen::Main
                    &&& final(self).unmoved(old(self)) && final(self).doc == old(self).doc
                },
                (Screen::Editing, NavEvent::NextSection) => {
                    &&& act == NavAction::Idle
                    &&& final(self).screen == Screen::Editing
                    &&& final(self).doc == old(self).doc
                    &&& final(self).edit_buffer == old(self).edit_buffer
                    &&& final(self).file_cursor == old(self).file_cursor
                    &&& old(self).sections@.len() > 0 ==> {
                        &&& final(self).selected_section as int == next_wrap(
                            old(self).selected_section as int,
                            old(self).sections@.len() as int,
                        )
                        &&& final(self).selected_item == 0
                    }
                    &&& old(self).sections@.len() == 0 ==> final(self).unmoved(old(self))
                },
                (Screen::Editing, NavEvent::PrevSection) => {
                    &&& act == NavAction::Idle
                    &&& final(self).screen == Screen::Editing
                    &&& final(self).doc == old(self).doc
                    &&& final(self).edit_buffer == old(self).edit_buffer
                    &&& final(self).file_cursor == old(self).file_cursor
                    &&& old(self).sections@.len() > 0 ==> {
                        &&& final(self).selected_section as int == prev_wrap(
                            old(self).selected_section as int,
                            old(self).sections@.len() as int,
                        )
                        &&& final(self).selected_item == 0
                    }
                    &&& old(self).sections@.len() == 0 ==> final(self).unmoved(old(self))
                },
                (Screen::Editing, NavEvent::Down) => {
                    &&& act == NavAction::Idle
                    &&& final(self).screen == Screen::Editing
                    &&& final(self).doc == old(self).doc
                    &&& final(self).edit_buffer == old(self).edit_buffer
                    &&& final(self).file_cursor == old(self).file_cursor
                    &&& final(self).selected_section == old(self).selected_section
                    &&& old(self).sections@.len() > 0 ==> final(self).selected_item as int == (
                    if old(self).selected_item + 1 < old(self).sections@[old(self).selected_section as int].items@.len() {
                        old(self).selected_item as int + 1
                    } else {
                        old(self).selected_item as int
                    })
                    &&& old(self).sections@.len() == 0 ==> final(self).selected_item == old(self).selected_item
                },
                (Screen::Editing, NavEvent::Up) => {
                    &&& act == NavAction::Idle
                    &&& final(self).screen == Screen::Editing
                    &&& final(self).doc == old(self).doc
                    &&& final(self).edit_buffer == old(self).edit_buffer
                    &&& final(self).file_cursor == old(self).file_cursor
                    &&& final(self).selected_section == old(self).selected_section
                    &&& final(self).selected_item as int == (if old(self).selected_item > 0 {
                        old(self).selected_item as int - 1
                    } else {
                        0
                    })
                },
                (Screen::Editing, NavEvent::Confirm) => {
                    &&& final(self).file_cursor == old(self).file_cursor
                    &&& final(self).selected_section == old(self).selected_section
                    &&& final(self).selected_item == old(self).selected_item
                    &&& if old(self).sections@.len() == 0 {
                        act == NavAction::Idle && final(self).screen == Screen::Editing && final(self).doc == old(self).doc && final(self).edit_buffer == old(self).edit_buffer
                    } else {
                        let idx = old(self).addressed();
                        let e = old(self).doc@.entries[idx];
                        if is_boolean_kind(e) {
                            &&& act == NavAction::Idle
                            &&& final(self).screen == Screen::Editing
                            &&& final(self).edit_buffer == old(self).edit_buffer
                            &&& final(self).doc@.entries == old(self).doc@.entries.update(
                                idx,
                                (EntryModel {
                                    key: e.key,
                                    value: flipped(e.value),
                                    schema: e.schema,
                                    enabled: true,
                                }),
                            )
                        } else {
                            &&& act == NavAction::Idle
                            &&& final(self).screen == Screen::EditingValue
                            &&& final(self).doc == old(self).doc
                            &&& final(self).edit_buffer@ == e.value
                        }
                    }
                },
                (Screen::Editing, NavEvent::ToggleEnabled) => {
                    &&& act == NavAction::Idle
                    &&& final(self).screen == Screen::Editing
                    &&& final(self).edit_buffer == old(self).edit_buffer
                    &&& final(self).file_cursor == old(self).file_cursor
                    &&& final(self).selected_section == old(self).selected_section
                    &&& final(self).selected_item == old(self).selected_item
                    &&& if old(self).sections@.len() == 0 {
                        final(self).doc == old(self).doc
                    } else {
                        let idx = old(self).addressed();
                        let e = old(self).doc@.entries[idx];
                        final(self).doc@.entries == old(self).doc@.entries.update(
                            idx,
                            (EntryModel {
                                key: e.key,
                                value: e.value,
                                schema: e.schema,
                                enabled: !e.enabled,
                            }),
                        )
                    }
                },
                (Screen::Editing, NavEvent::Save) => {
                    &&& act == NavAction::Persist
                    &&& final(self).screen == Screen::Editing
                    &&& final(self).unmoved(old(self)) && final(self).doc == old(self).doc
                },
                (Screen::EditingValue, NavEvent::Cancel) => {
                    &&& act == NavAction::Idle
                    &&& final(self).screen == Screen::Editing
                    &&& final(self).doc == old(self).doc
                    &&& final(self).edit_buffer@ == Seq::<char>::empty()
                    &&& final(self).file_cursor == old(self).file_cursor
                    &&& final(self).selected_section == old(self).selected_section
                    &&& final(self).selected_item == old(self).selected_item
                },
                (Screen::EditingValue, NavEvent::Confirm) => {
                    &&& act == NavAction::Idle
                    &&& final(self).file_cursor == old(self).file_cursor
                    &&& final(self).selected_section == old(self).selected_section
                    &&& final(self).selected_item == old(self).selected_item
                    &&& if old(self).sections@.len() == 0 {
                        final(self).screen == Screen::EditingValue && final(self).doc == old(self).doc && final(self).edit_buffer == old(self).edit_buffer
                    } else {
                        let idx = old(self).addressed();
                        let e = old(self).doc@.entries[idx];
                        &&& final(self).screen == Screen::Editing
                        &&& final(self).edit_buffer@ == Seq::<char>::empty()
                        &&& final(self).doc@.entries == old(self).doc@.entries.update(
                            idx,
                            (EntryModel {
                                key: e.key,
                                value: old(self).edit_buffer@,
                                schema: e.schema,
                                enabled: true,
                            }),
                        )
                    }
                },
                (Screen::EditingValue, NavEvent::Backspace) => {
                    &&& act == NavAction::Idle
                    &&& final(self).screen == Screen::EditingValue
                    &&& final(self).doc == old(self).doc
                    &&& final(self).file_cursor == old(self).file_cursor
                    &&& final(self).selected_section == old(self).selected_section
                    &&& final(self).selected_item == old(self).selected_item
                    &&& final(self).edit_buffer@ == (if old(self).edit_buffer@.len() > 0 {
                        old(self).edit_buffer@.drop_last()
                    } else {
                        old(self).edit_buffer@
                    })
                },
                (Screen::EditingValue, NavEvent::Input(c)) => {
                    &&& act == NavAction::Idle
                    &&& final(self).screen == Screen::EditingValue
                    &&& final(self).doc == old(self).doc
                    &&& final(self).file_cursor == old(self).file_cursor
                    &&& final(self).selected_section == old(self).selected_section
                    &&& final(self).selected_item == old(self).selected_item
                    &&& final(self).edit_buffer@ == old(self).edit_buffer@.push(c)
                },
                _ => {
                    &&& act == NavAction::Idle
                    &&& final(self).screen == old(self).screen
                    &&& final(self).unmoved(old(self)) && final(self).doc == old(self).doc
                },
            }),
    {
        match ev {
            NavEvent::Save => {},
            _ => {
                self.notification = None;
            },
        }
        match (self.screen, ev) {
            (Screen::Main, NavEvent::Quit) => NavAction::Quit,
            (Screen::Main, NavEvent::Confirm) => {
                self.screen = Screen::FileExplorer;
                NavAction::RefreshListing
            },
            (Screen::FileExplorer, NavEvent::Cancel) => {
                self.screen = Screen::Main;
                NavAction::Idle
            },
            (Screen::FileExplorer, NavEvent::Up) => {
                if self.files.len() > 0 {
                    if self.file_cursor == 0 {
                        self.file_cursor = self.files.len() - 1;
                    } else {
                        self.file_cursor = self.file_cursor - 1;
                    }
                }
                NavAction::Idle
            },
            (Screen::FileExplorer, NavEvent::Down) => {
                if self.files.len() > 0 {
                    if self.file_cursor + 1 >= self.files.len() {
                        self.file_cursor = 0;
                    } else {
                        self.file_cursor = self.file_cursor + 1;
                    }
                }
                NavAction::Idle
            },
            (Screen::FileExplorer, NavEvent::Confirm) => {
                if self.files.len() == 0 {
                    NavAction::Idle
                } else {
                    let kind = self.files[self.file_cursor].kind;
                    match kind {
                        FileKind::File => NavAction::OpenSelectedFile,
                        _ => {
                            self.file_cursor = 0;
                            NavAction::EnterDirectory
                        },
                    }
                }
            },
            (Screen::Editing, NavEvent::Cancel) => {
                self.screen = Screen::Main;
                NavAction::Idle
            },
            (Screen::Editing, NavEvent::NextSection) => {
                if self.sections.len() > 0 {
                    if self.selected_section + 1 >= self.sections.len() {
                        self.selected_section = 0;
                    } else {
                        self.selected_section = self.selected_section + 1;
                    }
                    self.selected_item = 0;
                }
                NavAction::Idle
            },
            (Screen::Editing, NavEvent::PrevSection) => {
                if self.sections.len() > 0 {
                    if self.selected_section == 0 {
                        self.selected_section = self.sections.len() - 1;
                    } else {
                        self.selected_section = self.selected_section - 1;
                    }
                    self.selected_item = 0;
                }
                NavAction::Idle
            },
            (Screen::Editing, NavEvent::Down) => {
                if self.sections.len() > 0 {
                    let n = self.sections[self.selected_section].items.len();
                    if self.selected_item + 1 < n {
                        self.selected_item = self.selected_item + 1;
                    }
                }
                NavAction::Idle
            },
            (Screen::Editing, NavEvent::Up) => {
                if self.selected_item > 0 {
                    self.selected_item = self.selected_item - 1;
                }
                NavAction::Idle
            },
            (Screen::Editing, NavEvent::Confirm) => {
                if self.sections.len() == 0 {
                    NavAction::Idle
                } else {
                    let ghost ev0 = entry_views(self.doc.entries@);
                    let idx = self.sections[self.selected_section].items[self.selected_item];
                    let boolean = entry_is_boolean(&self.doc.entries[idx]);
                    if boolean {
                        let e = vstd::std_specs::vec::vec_index_mut(&mut self.doc.entries, idx);
                        let nv = flip_value(&e.value);
                        e.value = nv;
                        e.enabled = true;
                        proof {
                            assert(entry_views(self.doc.entries@) =~= ev0.update(
                                idx as int,
                                (EntryModel {
                                    key: ev0[idx as int].key,
                                    value: flipped(ev0[idx as int].value),
                                    schema: ev0[idx as int].schema,
                                    enabled: true,
                                }),
                            ));
                        }
                        NavAction::Idle
                    } else {
                        let buf = str_to_chars(self.doc.entries[idx].value.as_str());
                        self.edit_buffer = buf;
                        self.screen = Screen::EditingValue;
                        NavAction::Idle
                    }
                }
            },
            (Screen::Editing, NavEvent::ToggleEnabled) => {
                if self.sections.len() == 0 {
                    NavAction::Idle
                } else {
                    let ghost ev0 = entry_views(self.doc.entries@);
                    let idx = self.sections[self.selected_section].items[self.selected_item];
                    let e = vstd::std_specs::vec::vec_index_mut(&mut self.doc.entries, idx);
                    e.enabled = !e.enabled;
                    proof {
                        assert(entry_views(self.doc.entries@) =~= ev0.update(
                            idx as int,
                            (EntryModel {
                                key: ev0[idx as int].key,
                                value: ev0[idx as int].value,
                                schema: ev0[idx as int].schema,
                                enabled: !ev0[idx as int].enabled,
                            }),
                        ));
                    }
                    NavAction::Idle
                }
            },
            (Screen::Editing, NavEvent::Save) => NavAction::Persist,
            (Screen::EditingValue, NavEvent::Cancel) => {
                self.edit_buffer = Vec::new();
                self.screen = Screen::Editing;
                NavAction::Idle
            },
            (Screen::EditingValue, NavEvent::Confirm) => {
                if self.sections.len() == 0 {
                    NavAction::Idle
                } else {
                    let ghost ev0 = entry_views(self.doc.entries@);
                    let idx = self.sections[self.selected_section].items[self.selected_item];
                    let nv = chars_to_string(&self.edit_buffer);
                    let e = vstd::std_specs::vec::vec_index_mut(&mut self.doc.entries, idx);
                    e.value = nv;
                    e.enabled = true;
                    proof {
                        assert(entry_views(self.doc.entries@) =~= ev0.update(
                            idx as int,
                            (EntryModel {
                                key: ev0[idx as int].key,
                                value: old(self).edit_buffer@,
                                schema: ev0[idx as int].schema,
                                enabled: true,
                            }),
                        ));
                    }
                    self.edit_buffer = Vec::new();
                    self.screen = Screen::Editing;
                    NavAction::Idle
                }
            },
            (Screen::EditingValue, NavEvent::Backspace) => {
                if self.edit_buffer.len() > 0 {
                    self.edit_buffer.pop();
                }
                NavAction::Idle
            },
            (Screen::EditingValue, NavEvent::Input(c)) => {
                self.edit_buffer.push(c);
                NavAction::Idle
            },
            _ => NavAction::Idle,
        }
    }

    /// Whether the selection state and edit buffer are unchanged from `p`.
    pub open spec fn unmoved(&self, p: &Navigator) -> bool {
        &&& self.selected_section == p.selected_section
        &&& self.selected_item == p.selected_item
        &&& self.file_cursor == p.file_cursor
        &&& self.edit_buffer == p.edit_buffer
    }
}


} // verus!
