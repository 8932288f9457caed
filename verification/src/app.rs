//! The dashboard's state in executable form: the process table together with
//! the view state over it, and the operations that keys and refreshes invoke.

use vstd::prelude::*;
use vstd::string::*;
use crate::columns::{ColumnWidths, column_widths, widths_fit};
use crate::model::{AppModel, InputMode};
use crate::palette::{N_PALETTES, TableColors, palette_at};
use crate::row::{ProcessRecord, ProcessRow, distinct_pids, models};
use crate::selection::{clamp_index, next_index, previous_index};
use crate::table::{
    MAX_ROWS, ProcessTable, ROW_HEIGHT, is_sorted_snapshot, lemma_empty_filter_keeps_all,
    path_filter, strictly_ascending,
};
use crate::text::{byte_offset, byte_offset_of, string_insert};

verus! {

/// Selection, scroll position, theme, filter and input mode.
pub struct ViewState {
    pub selected_index: Option<usize>,
    pub scroll_offset: usize,
    pub palette_index: usize,
    pub filter_text: String,
    pub input: String,
    pub character_index: usize,
    pub input_mode: InputMode,
}

/// What the renderer paints: the rows on display with their column widths,
/// the selection and scrollbar position, and the colours.
pub struct Frame {
    pub rows: Vec<ProcessRow>,
    pub widths: ColumnWidths,
    pub selected_index: Option<usize>,
    pub scroll_offset: usize,
    pub scroll_length: usize,
    pub colors: TableColors,
}

/// Length of the scrollbar's track for a view of `len` rows.
pub open spec fn scroll_length_for(len: nat) -> int {
    if len == 0 {
        0
    } else {
        (len - 1) * ROW_HEIGHT
    }
}

/// The dashboard: table, view state and colours.
pub struct App {
    table: ProcessTable,
    state: ViewState,
    colors: TableColors,
}

impl View for App {
    type V = AppModel;

    closed spec fn view(&self) -> AppModel {
        AppModel {
            rows: self.table@,
            selected_index: self.state.selected_index,
            scroll_offset: self.state.scroll_offset,
            palette_index: self.state.palette_index,
            filter_text: self.state.filter_text@,
            input: self.state.input@,
            character_index: self.state.character_index,
            input_mode: self.state.input_mode,
            colors: self.colors,
        }
    }
}

impl App {
    /// The invariant that every operation keeps.
    pub open spec fn wf(&self) -> bool {
        self@.valid()
    }

    /// The dashboard at start-up over a first snapshot.
    pub fn new(snapshot: &Vec<ProcessRecord>) -> (app: Self)
        requires
            snapshot@.len() <= MAX_ROWS,
        ensures
            app.wf(),
            app@ == AppModel::initial(app@.rows),
            is_sorted_snapshot(app@.rows, snapshot@),
            distinct_pids(snapshot@) ==> strictly_ascending(app@.rows),
    {
        let mut table = ProcessTable::new();
        table.refresh(snapshot);
        let selected_index = if table.len() > 0 {
            Some(0)
        } else {
            None
        };
        let state = ViewState {
            selected_index,
            scroll_offset: 0,
            palette_index: 0,
            filter_text: String::new(),
            input: String::new(),
            character_index: 0,
            input_mode: InputMode::Normal,
        };
        proof {
            lemma_empty_filter_keeps_all(table@);
        }
        App { table, state, colors: TableColors::new(palette_at(0)) }
    }

    /// The view state.
    pub fn state(&self) -> (state: &ViewState)
        ensures
            state.selected_index == self@.selected_index,
            state.scroll_offset == self@.scroll_offset,
            state.palette_index == self@.palette_index,
            state.filter_text@ == self@.filter_text,
            state.input@ == self@.input,
            state.character_index == self@.character_index,
            state.input_mode == self@.input_mode,
    {
        &self.state
    }

    /// The process table.
    pub fn table(&self) -> (table: &ProcessTable)
        ensures
            table@ == self@.rows,
    {
        &self.table
    }

    /// The colours last set.
    pub fn colors(&self) -> (colors: TableColors)
        ensures
            colors == self@.colors,
    {
        self.colors
    }

    /// Number of rows on display.
    pub fn visible_len(&self) -> (n: usize)
        ensures
            n == self@.visible().len(),
    {
        self.table.visible_len(self.state.filter_text.as_str())
    }

    fn select(&mut self, selected: Option<usize>)
        requires
            match selected {
                Some(i) => i < MAX_ROWS,
                None => true,
            },
        ensures
            final(self)@ == old(self)@.select(selected),
    {
        self.state.selected_index = selected;
        self.state.scroll_offset = match selected {
            Some(i) => i * ROW_HEIGHT,
            None => 0,
        };
    }

    /// Moves the selection one row down, wrapping to the first row behind the
    /// last; selects the first row where none was selected; does nothing
    /// where no row is on display. The scrollbar follows.
    pub fn next(&mut self)
        requires
            old(self).wf(),
        ensures
            final(self).wf(),
            final(self)@ == old(self)@.next(),
    {
        let len: usize = self.visible_len();
        proof {
            self@.rows.lemma_filter_len(path_filter(self@.filter_text));
        }
        let selected = next_index(self.state.selected_index, len);
        self.select(selected);
    }

    /// Moves the selection one row up, wrapping to the last row before the
    /// first; selects the first row where none was selected; does nothing
    /// where no row is on display. The scrollbar follows.
    pub fn previous(&mut self)
        requires
            old(self).wf(),
        ensures
            final(self).wf(),
            final(self)@ == old(self)@.previous(),
    {
        let len: usize = self.visible_len();
        proof {
            self@.rows.lemma_filter_len(path_filter(self@.filter_text));
        }
        let selected = previous_index(self.state.selected_index, len);
        self.select(selected);
    }

    /// Switches to the next theme, cyclically.
    pub fn next_palette(&mut self)
        requires
            old(self).wf(),
        ensures
            final(self).wf(),
            final(self)@ == old(self)@.next_palette(),
    {
        self.state.palette_index = if self.state.palette_index + 1 >= N_PALETTES {
            0
        } else {
            self.state.palette_index + 1
        };
    }

    /// Switches to the previous theme, cyclically.
    pub fn previous_palette(&mut self)
        requires
            old(self).wf(),
        ensures
            final(self).wf(),
            final(self)@ == old(self)@.previous_palette(),
    {
        self.state.palette_index = if self.state.palette_index == 0 {
            N_PALETTES - 1
        } else {
            self.state.palette_index - 1
        };
    }

    /// Derives the colours from the palette index.
    pub fn set_colors(&mut self)
        requires
            old(self).wf(),
        ensures
            final(self).wf(),
            final(self)@ == old(self)@.set_colors(),
    {
        self.colors = TableColors::new(palette_at(self.state.palette_index));
    }

    /// Starts editing the filter: the committed filter becomes the text under
    /// edit, with the cursor at its end. Does nothing while editing.
    pub fn enter_filter_mode(&mut self)
        requires
            old(self).wf(),
        ensures
            final(self).wf(),
            final(self)@ == old(self)@.enter_filter_mode(),
    {
        match self.state.input_mode {
            InputMode::Normal => {
                self.state.input = self.state.filter_text.clone();
                self.state.character_index = self.state.input.as_str().unicode_len();
                self.state.input_mode = InputMode::Editing;
            },
            InputMode::Editing => {},
        }
    }

    /// The byte position in the text under edit at which the cursor stands;
    /// the text's end for a cursor behind it.
    pub fn byte_index(&self) -> (index: usize)
        ensures
            index == byte_offset(
                self@.input,
                if self@.character_index <= self@.input.len() {
                    self@.character_index as int
                } else {
                    self@.input.len() as int
                },
            ),
    {
        byte_offset_of(self.state.input.as_str(), self.state.character_index)
    }

    /// While editing, puts `new_char` into the text at the cursor and moves
    /// the cursor behind it. Does nothing while navigating.
    pub fn enter_char(&mut self, new_char: char)
        requires
            old(self).wf(),
        ensures
            final(self).wf(),
            final(self)@ == old(self)@.enter_char(new_char),
    {
        match self.state.input_mode {
            InputMode::Editing => {
                let index: usize = self.byte_index();
                string_insert(&mut self.state.input, index, new_char);
                // The longer text's length fits in `usize`, so the cursor does too.
                let len: usize = self.state.input.as_str().unicode_len();
                assert(self.state.character_index < len);
                self.state.character_index = self.state.character_index + 1;
            },
            InputMode::Normal => {},
        }
    }

    /// While editing, commits the text under edit as the filter, returns to
    /// navigating, and brings the selection back into the new view: to its
    /// last row where the selection lay behind it, to none where it is
    /// empty. Does nothing while navigating.
    pub fn submit_message(&mut self)
        requires
            old(self).wf(),
        ensures
            final(self).wf(),
            final(self)@ == old(self)@.submit_message(),
    {
        match self.state.input_mode {
            InputMode::Editing => {
                self.state.filter_text = self.state.input.clone();
                self.state.input = String::new();
                self.state.character_index = 0;
                self.state.input_mode = InputMode::Normal;
                let len: usize = self.visible_len();
                proof {
                    self@.rows.lemma_filter_len(path_filter(self@.filter_text));
                }
                let selected = clamp_index(self.state.selected_index, len);
                self.select(selected);
            },
            InputMode::Normal => {},
        }
    }

    /// While editing, discards the text under edit and returns to
    /// navigating; the committed filter stays. Does nothing while navigating.
    pub fn cancel_filter(&mut self)
        requires
            old(self).wf(),
        ensures
            final(self).wf(),
            final(self)@ == old(self)@.cancel_filter(),
    {
        match self.state.input_mode {
            InputMode::Editing => {
                self.state.input = String::new();
                self.state.character_index = 0;
                self.state.input_mode = InputMode::Normal;
            },
            InputMode::Normal => {},
        }
    }

    /// While navigating, empties the filter and selects the first row, if
    /// there is one. Does nothing while editing.
    pub fn clear(&mut self)
        requires
            old(self).wf(),
        ensures
            final(self).wf(),
            final(self)@ == old(self)@.clear(),
    {
        match self.state.input_mode {
            InputMode::Normal => {
                self.state.filter_text = String::new();
                self.state.input = String::new();
                self.state.character_index = 0;
                proof {
                    lemma_empty_filter_keeps_all(self@.rows);
                }
                let selected = if self.table.len() > 0 {
                    Some(0)
                } else {
                    None
                };
                self.select(selected);
            },
            InputMode::Editing => {},
        }
    }

    /// Replaces the table's rows by those of `snapshot`, sorted by pid, and
    /// brings the selection back into the view that the committed filter
    /// gives of them.
    pub fn refresh(&mut self, snapshot: &Vec<ProcessRecord>)
        requires
            old(self).wf(),
            snapshot@.len() <= MAX_ROWS,
        ensures
            final(self).wf(),
            final(self)@ == old(self)@.refresh(final(self)@.rows),
            is_sorted_snapshot(final(self)@.rows, snapshot@),
            distinct_pids(snapshot@) ==> strictly_ascending(final(self)@.rows),
    {
        self.table.refresh(snapshot);
        let len: usize = self.visible_len();
        proof {
            self@.rows.lemma_filter_len(path_filter(self@.filter_text));
        }
        let selected = clamp_index(self.state.selected_index, len);
        self.select(selected);
    }

    /// The rows on display.
    pub fn filtered_view(&self) -> (view: Vec<ProcessRow>)
        ensures
            models(view@) == self@.visible(),
    {
        self.table.filtered_view(self.state.filter_text.as_str())
    }

    /// Everything the renderer needs for one frame. Nothing is changed.
    pub fn frame(&self) -> (frame: Frame)
        requires
            self.wf(),
        ensures
            models(frame.rows@) == self@.visible(),
            widths_fit(frame.widths, self@.visible()),
            frame.selected_index == self@.selected_index,
            frame.scroll_offset == self@.scroll_offset,
            frame.scroll_length == scroll_length_for(self@.visible().len()),
            frame.colors == self@.colors,
    {
        let rows = self.filtered_view();
        let widths = column_widths(&rows);
        proof {
            self@.rows.lemma_filter_len(path_filter(self@.filter_text));
        }
        let scroll_length: usize = if rows.len() == 0 {
            0
        } else {
            (rows.len() - 1) * ROW_HEIGHT
        };
        Frame {
            rows,
            widths,
            selected_index: self.state.selected_index,
            scroll_offset: self.state.scroll_offset,
            scroll_length,
            colors: self.colors,
        }
    }
}

} // verus!
