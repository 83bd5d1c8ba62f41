use vstd::prelude::*;

use crate::query_map::texts;

verus! {

/// What the picker has selected.
pub enum Selected {
    /// The "(None)" row: no graphic.
    NoGraphic,
    /// The graphic at `path`.
    Entry { path: String },
}

/// Whether the picker window is shown, and what it shows.
enum State {
    Closed,
    Open {
        /// Every graphic of the directory.
        entries: Vec<String>,
        /// The graphics that match `search_text`, in the order shown.
        filtered_entries: Vec<String>,
        search_text: String,
        selected: Selected,
    },
}

/// The decisions of the graphic picker: a button that opens a window listing
/// the graphics of a directory, where one (or none) is chosen and saved.
pub struct Modal {
    state: State,
    scrolled_on_first_open: bool,
}

/// An open picker window, as text.
pub struct OpenModel {
    pub entries: Seq<Seq<char>>,
    pub filtered: Seq<Seq<char>>,
    pub search: Seq<char>,
    /// The selected path; `None` for the "(None)" row.
    pub selected: Option<Seq<char>>,
}

/// The picker, as text: its window if open, and whether the window has
/// already scrolled to the selection since it opened.
pub struct PickerModel {
    pub open: Option<OpenModel>,
    pub scrolled: bool,
}

/// The text of an optional path.
pub open spec fn opt_text(o: Option<String>) -> Option<Seq<char>> {
    match o {
        Some(s) => Some(s@),
        None => None,
    }
}

/// The path a selection stands for.
pub open spec fn selected_path(s: Selected) -> Option<Seq<char>> {
    match s {
        Selected::NoGraphic => None,
        Selected::Entry { path } => Some(path@),
    }
}

/// The picker after its button opens the window on `entries`, with the
/// current graphic `data` selected and no search text.
pub open spec fn open_step(m: PickerModel, data: Option<Seq<char>>, entries: Seq<Seq<char>>) -> PickerModel {
    PickerModel {
        open: Some(OpenModel { entries, filtered: entries, search: Seq::empty(), selected: data }),
        scrolled: m.scrolled,
    }
}

/// The picker, the graphic and the answer "was it saved" after a frame of the
/// window ends: a closed picker forgets its scroll and saves nothing; an open
/// one writes its selection to the graphic when saving, and closes (forgetting
/// its scroll) when the window was closed or not kept open.
pub open spec fn end_frame_step(
    m: PickerModel,
    win_open: bool,
    keep_open: bool,
    needs_save: bool,
    data: Option<Seq<char>>,
) -> (PickerModel, Option<Seq<char>>, bool) {
    match m.open {
        None => (PickerModel { open: None, scrolled: false }, data, false),
        Some(o) => {
            let new_data = if needs_save {
                o.selected
            } else {
                data
            };
            let new_model = if win_open && keep_open {
                m
            } else {
                PickerModel { open: None, scrolled: false }
            };
            (new_model, new_data, needs_save)
        },
    }
}

/// The picker after a reset: closed, scroll forgotten.
pub open spec fn reset_step(m: PickerModel) -> PickerModel {
    PickerModel { open: None, scrolled: false }
}

/// The rows of graphics shown for the rows `start..end` of the list, whose
/// first row is "(None)".
pub open spec fn entry_rows_spec(start: usize, end: usize) -> (usize, usize) {
    (
        if start == 0 {
            0
        } else {
            (start - 1) as usize
        },
        if end == 0 {
            0
        } else {
            (end - 1) as usize
        },
    )
}

impl View for Modal {
    type V = PickerModel;

    closed spec fn view(&self) -> PickerModel {
        PickerModel {
            open: match self.state {
                State::Closed => None,
                State::Open { entries, filtered_entries, search_text, selected } => Some(
                    OpenModel {
                        entries: texts(entries@),
                        filtered: texts(filtered_entries@),
                        search: search_text@,
                        selected: selected_path(selected),
                    },
                ),
            },
            scrolled: self.scrolled_on_first_open,
        }
    }
}

impl Modal {
    /// A closed picker.
    pub fn new() -> (res: Self)
        ensures
            res@ == (PickerModel { open: None, scrolled: false }),
    {
        Modal { state: State::Closed, scrolled_on_first_open: false }
    }

    /// Whether the window is open.
    pub fn is_open(&self) -> (res: bool)
        ensures
            res == self@.open is Some,
    {
        match &self.state {
            State::Open { .. } => true,
            State::Closed => false,
        }
    }

    /// Whether a click of the button opens the window: a click while it is closed.
    pub fn should_open(&self, clicked: bool) -> (res: bool)
        ensures
            res == (clicked && self@.open is None),
    {
        clicked && !self.is_open()
    }

    /// Opens the window on `entries`, with the current graphic selected.
    pub fn open(&mut self, data: &Option<String>, entries: Vec<String>)
        ensures
            final(self)@ == open_step(old(self)@, opt_text(*data), texts(entries@)),
            final(self)@.scrolled == old(self)@.scrolled,
            final(self)@.open matches Some(o) && o.selected == opt_text(*data) && o.entries == texts(
                entries@,
            ) && o.filtered == texts(entries@) && o.search.len() == 0,
    {
        let selected = match data {
            Some(path) => Selected::Entry { path: path.clone() },
            None => Selected::NoGraphic,
        };
        let filtered_entries = clone_paths(&entries);
        self.state = State::Open {
            filtered_entries,
            entries,
            search_text: String::new(),
            selected,
        };
    }

    /// Takes a new search text and the graphics that match it.
    pub fn set_search(&mut self, search_text: String, filtered_entries: Vec<String>)
        ensures
            final(self)@ == (match old(self)@.open {
                Some(o) => PickerModel {
                    open: Some(
                        OpenModel { search: search_text@, filtered: texts(filtered_entries@), ..o },
                    ),
                    ..old(self)@
                },
                None => old(self)@,
            }),
    {
        match &mut self.state {
            State::Open { filtered_entries: f, search_text: t, .. } => {
                *f = filtered_entries;
                *t = search_text;
            },
            State::Closed => {},
        }
    }

    /// Selects the "(None)" row: no graphic.
    pub fn select_none(&mut self)
        ensures
            final(self)@ == (match old(self)@.open {
                Some(o) => PickerModel {
                    open: Some(OpenModel { selected: None, ..o }),
                    ..old(self)@
                },
                None => old(self)@,
            }),
    {
        match &mut self.state {
            State::Open { selected, .. } => {
                *selected = Selected::NoGraphic;
            },
            State::Closed => {},
        }
    }

    /// Selects the graphic at `path`.
    pub fn select_entry(&mut self, path: String)
        ensures
            final(self)@ == (match old(self)@.open {
                Some(o) => PickerModel {
                    open: Some(OpenModel { selected: Some(path@), ..o }),
                    ..old(self)@
                },
                None => old(self)@,
            }),
    {
        match &mut self.state {
            State::Open { selected, .. } => {
                *selected = Selected::Entry { path };
            },
            State::Closed => {},
        }
    }

    /// Whether the window still has to scroll the selection into view.
    pub fn needs_scroll(&self) -> (res: bool)
        ensures
            res == !self@.scrolled,
    {
        !self.scrolled_on_first_open
    }

    /// Records that the window has scrolled the selection into view.
    pub fn mark_scrolled(&mut self)
        ensures
            final(self)@ == (PickerModel { scrolled: true, ..old(self)@ }),
    {
        self.scrolled_on_first_open = true;
    }

    /// The row to scroll into view, given the index of the selected graphic
    /// among the shown ones (if it is shown): row 0 for "(None)", the
    /// graphic's index plus one otherwise.
    pub fn scroll_row(&self, matching: Option<usize>) -> (res: Option<usize>)
        requires
            matching matches Some(i) ==> i < usize::MAX,
        ensures
            res == (match self@.open {
                Some(o) if o.selected is None => Some(0usize),
                _ => match matching {
                    Some(i) => Some((i + 1) as usize),
                    None => None,
                },
            }),
    {
        let none_selected = match &self.state {
            State::Open { selected: Selected::NoGraphic, .. } => true,
            _ => false,
        };
        if none_selected {
            Some(0)
        } else {
            match matching {
                Some(i) => Some(i + 1),
                None => None,
            }
        }
    }

    /// Ends a frame of the window: `win_open` is whether its close button
    /// was left alone, `keep_open` whether it is to stay open, `needs_save`
    /// whether the selection is to be saved into `data`. Returns whether it
    /// was saved.
    pub fn end_frame(
        &mut self,
        win_open: bool,
        keep_open: bool,
        needs_save: bool,
        data: &mut Option<String>,
    ) -> (res: bool)
        ensures
            (final(self)@, opt_text(*final(data)), res) == end_frame_step(
                old(self)@,
                win_open,
                keep_open,
                needs_save,
                opt_text(*old(data)),
            ),
            res == (old(self)@.open is Some && needs_save),
            !res ==> *final(data) == *old(data),
    {
        let saved_path = match &self.state {
            State::Closed => {
                self.scrolled_on_first_open = false;
                return false;
            },
            State::Open { selected, .. } => match selected {
                Selected::NoGraphic => None,
                Selected::Entry { path } => Some(path.clone()),
            },
        };
        if needs_save {
            *data = saved_path;
        }
        if !(win_open && keep_open) {
            self.state = State::Closed;
            self.scrolled_on_first_open = false;
        }
        needs_save
    }

    /// Closes the window and forgets the scroll.
    pub fn reset(&mut self)
        ensures
            final(self)@ == reset_step(old(self)@),
    {
        self.state = State::Closed;
        self.scrolled_on_first_open = false;
    }
}

/// The rows of graphics shown for the rows `start..end` of the list, whose
/// first row is "(None)": each bound less one, never below zero.
pub fn entry_rows(start: usize, end: usize) -> (res: (usize, usize))
    ensures
        res == entry_rows_spec(start, end),
{
    (start.saturating_sub(1), end.saturating_sub(1))
}

/// A copy of a list of paths.
fn clone_paths(v: &Vec<String>) -> (res: Vec<String>)
    ensures
        texts(res@) == texts(v@),
{
    let mut res: Vec<String> = Vec::new();
    let mut i: usize = 0;
    while i < v.len()
        invariant
            i <= v@.len(),
            texts(res@) == texts(v@).take(i as int),
        decreases v@.len() - i,
    {
        let ghost before = res@;
        let c = v[i].clone();
        res.push(c);
        assert(texts(res@) =~= texts(before).push(v@[i as int]@));
        assert(texts(res@) =~= texts(v@).take(i + 1));
        i += 1;
    }
    assert(texts(v@).take(v@.len() as int) =~= texts(v@));
    res
}

/// Saving right after opening gives back the graphic the picker opened on,
/// however the window ends.
pub proof fn lemma_save_after_open(
    m: PickerModel,
    data: Option<Seq<char>>,
    entries: Seq<Seq<char>>,
    win_open: bool,
    keep_open: bool,
)
    ensures
        end_frame_step(open_step(m, data, entries), win_open, keep_open, true, data).1 == data,
{
}

/// Saving writes the last selection made, whatever was saved before.
pub proof fn lemma_save_writes_selection(m: PickerModel, win_open: bool, keep_open: bool, data: Option<Seq<char>>)
    requires
        m.open is Some,
    ensures
        end_frame_step(m, win_open, keep_open, true, data).1 == m.open->0.selected,
        end_frame_step(m, win_open, keep_open, true, data).2,
{
}

/// Ending a frame without saving never changes the graphic, and a window
/// that is closed or not kept open leaves the picker closed, ready for the
/// button to open it again.
pub proof fn lemma_end_frame_closes(
    m: PickerModel,
    win_open: bool,
    keep_open: bool,
    needs_save: bool,
    data: Option<Seq<char>>,
)
    ensures
        !needs_save ==> end_frame_step(m, win_open, keep_open, needs_save, data).1 == data,
        !(win_open && keep_open) ==> end_frame_step(m, win_open, keep_open, needs_save, data).0
            == (PickerModel { open: None, scrolled: false }),
{
}

/// Ending a frame reports a save exactly when the window was open and a
/// save was asked for; a frame of an open window that is not saved reports
/// nothing saved, however the window ends.
pub proof fn lemma_end_frame_result(
    m: PickerModel,
    win_open: bool,
    keep_open: bool,
    needs_save: bool,
    data: Option<Seq<char>>,
)
    ensures
        end_frame_step(m, win_open, keep_open, needs_save, data).2 == (m.open is Some && needs_save),
        !end_frame_step(m, win_open, keep_open, needs_save, data).2 ==> end_frame_step(
            m,
            win_open,
            keep_open,
            needs_save,
            data,
        ).1 == data,
{
}

/// Opening leaves the scroll flag as it was, whatever graphic is current, so
/// a picker that has not scrolled yet still has to scroll to the selection;
/// the window opens on all entries, unfiltered, with the current graphic
/// selected and no search text.
pub proof fn lemma_open_keeps_scroll(m: PickerModel, data: Option<Seq<char>>, entries: Seq<Seq<char>>)
    ensures
        open_step(m, data, entries).scrolled == m.scrolled,
        open_step(m, data, entries).open matches Some(o) && o.selected == data && o.entries == entries
            && o.filtered == entries && o.search.len() == 0,
{
}

} // verus!
