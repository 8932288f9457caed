//! The dashboard's state as a mathematical value, and each operation on it as
//! a function from state to state.

use vstd::prelude::*;
use crate::palette::{N_PALETTES, TableColors, palette_after, palette_before, palette_hue, theme};
use crate::row::RowModel;
use crate::selection::{
    clamped, first_index, index_after, index_after_steps, index_before, index_before_steps,
    lemma_steps_down_cycle, lemma_steps_up_cycle, scroll_for,
};
use crate::table::{MAX_ROWS, filtered, lemma_empty_filter_keeps_all, sorted_by_pid};

verus! {

/// Whether keys navigate the table or edit the filter text.
#[derive(Clone, Copy, PartialEq, Eq, Structural, Debug)]
pub enum InputMode {
    Normal,
    Editing,
}

/// The whole state: the table's rows and the view state over them.
pub struct AppModel {
    /// All rows, unfiltered.
    pub rows: Seq<RowModel>,
    /// Index of the selected row within the filtered view.
    pub selected_index: Option<usize>,
    /// Scrollbar position, in step with the selection.
    pub scroll_offset: usize,
    /// Index of the theme in use.
    pub palette_index: usize,
    /// The committed filter.
    pub filter_text: Seq<char>,
    /// The filter text under edit.
    pub input: Seq<char>,
    /// Edit cursor, as a character position in `input`.
    pub character_index: usize,
    pub input_mode: InputMode,
    /// The colours last derived from the palette index.
    pub colors: TableColors,
}

impl AppModel {
    /// The rows on display: those that pass the committed filter.
    pub open spec fn visible(self) -> Seq<RowModel> {
        filtered(self.rows, self.filter_text)
    }

    /// The state's invariant.
    pub open spec fn valid(self) -> bool {
        &&& sorted_by_pid(self.rows)
        &&& self.rows.len() <= MAX_ROWS
        &&& self.palette_index < N_PALETTES
        &&& self.character_index <= self.input.len()
        &&& self.scroll_offset == scroll_for(self.selected_index)
        &&& match self.selected_index {
            Some(i) => i < self.visible().len(),
            None => true,
        }
    }

    /// The state at start-up over `rows`: first row selected if there is one,
    /// no filter, first theme, keys navigate.
    pub open spec fn initial(rows: Seq<RowModel>) -> AppModel {
        AppModel {
            rows,
            selected_index: first_index(rows.len()),
            scroll_offset: 0,
            palette_index: 0,
            filter_text: Seq::empty(),
            input: Seq::empty(),
            character_index: 0,
            input_mode: InputMode::Normal,
            colors: theme(palette_hue(0)),
        }
    }

    /// This state with another selection, and the scrollbar moved with it.
    pub open spec fn select(self, selected: Option<usize>) -> AppModel {
        AppModel {
            selected_index: selected,
            scroll_offset: scroll_for(selected) as usize,
            ..self
        }
    }

    /// One row down, wrapping to the first row behind the last.
    pub open spec fn next(self) -> AppModel {
        self.select(index_after(self.selected_index, self.visible().len()))
    }

    /// One row up, wrapping to the last row before the first.
    pub open spec fn previous(self) -> AppModel {
        self.select(index_before(self.selected_index, self.visible().len()))
    }

    /// `times` rows down.
    pub open spec fn next_times(self, times: nat) -> AppModel
        decreases times,
    {
        if times == 0 {
            self
        } else {
            self.next_times((times - 1) as nat).next()
        }
    }

    /// `times` rows up.
    pub open spec fn previous_times(self, times: nat) -> AppModel
        decreases times,
    {
        if times == 0 {
            self
        } else {
            self.previous_times((times - 1) as nat).previous()
        }
    }

    /// The next theme, cyclically.
    pub open spec fn next_palette(self) -> AppModel {
        AppModel { palette_index: palette_after(self.palette_index), ..self }
    }

    /// The previous theme, cyclically.
    pub open spec fn previous_palette(self) -> AppModel {
        AppModel { palette_index: palette_before(self.palette_index), ..self }
    }

    /// The colours brought in line with the palette index.
    pub open spec fn set_colors(self) -> AppModel {
        AppModel { colors: theme(palette_hue(self.palette_index)), ..self }
    }

    /// From navigating to editing: the committed filter becomes the text
    /// under edit, with the cursor at its end. While editing, nothing changes.
    pub open spec fn enter_filter_mode(self) -> AppModel {
        if self.input_mode == InputMode::Normal {
            AppModel {
                input_mode: InputMode::Editing,
                input: self.filter_text,
                character_index: self.filter_text.len() as usize,
                ..self
            }
        } else {
            self
        }
    }

    /// While editing: `c` goes into the text at the cursor, and the cursor
    /// moves behind it. While navigating, nothing changes.
    pub open spec fn enter_char(self, c: char) -> AppModel {
        if self.input_mode == InputMode::Editing {
            AppModel {
                input: self.input.insert(self.character_index as int, c),
                character_index: (self.character_index + 1) as usize,
                ..self
            }
        } else {
            self
        }
    }

    /// While editing: the text under edit becomes the committed filter, keys
    /// navigate again, and the selection is brought back into the new view.
    /// While navigating, nothing changes.
    pub open spec fn submit_message(self) -> AppModel {
        if self.input_mode == InputMode::Editing {
            AppModel {
                filter_text: self.input,
                input: Seq::empty(),
                character_index: 0,
                input_mode: InputMode::Normal,
                ..self
            }.select(clamped(self.selected_index, filtered(self.rows, self.input).len()))
        } else {
            self
        }
    }

    /// While editing: the text under edit is discarded and keys navigate
    /// again; the committed filter stays. While navigating, nothing changes.
    pub open spec fn cancel_filter(self) -> AppModel {
        if self.input_mode == InputMode::Editing {
            AppModel {
                input: Seq::empty(),
                character_index: 0,
                input_mode: InputMode::Normal,
                ..self
            }
        } else {
            self
        }
    }

    /// While navigating: the filter is emptied and the first row selected, if
    /// there is one. While editing, nothing changes.
    pub open spec fn clear(self) -> AppModel {
        if self.input_mode == InputMode::Normal {
            AppModel {
                filter_text: Seq::empty(),
                input: Seq::empty(),
                character_index: 0,
                ..self
            }.select(first_index(self.rows.len()))
        } else {
            self
        }
    }

    /// The rows replaced by `rows`, and the selection brought back into the
    /// view that the committed filter gives of them.
    pub open spec fn refresh(self, rows: Seq<RowModel>) -> AppModel {
        AppModel { rows, ..self }.select(
            clamped(self.selected_index, filtered(rows, self.filter_text).len()),
        )
    }
}

proof fn lemma_next_times(model: AppModel, times: nat)
    requires
        model.valid(),
    ensures
        model.next_times(times) == model.select(
            index_after_steps(model.selected_index, model.visible().len(), times),
        ),
    decreases times,
{
    if times > 0 {
        lemma_next_times(model, (times - 1) as nat);
    }
}

proof fn lemma_previous_times(model: AppModel, times: nat)
    requires
        model.valid(),
    ensures
        model.previous_times(times) == model.select(
            index_before_steps(model.selected_index, model.visible().len(), times),
        ),
    decreases times,
{
    if times > 0 {
        lemma_previous_times(model, (times - 1) as nat);
    }
}

/// Moving down as many times as there are rows on display leads back to the
/// same state, whenever a row is selected.
pub proof fn lemma_next_full_cycle(model: AppModel)
    requires
        model.valid(),
        model.selected_index.is_some(),
    ensures
        model.next_times(model.visible().len()) == model,
{
    let len = model.visible().len();
    model.rows.lemma_filter_len(crate::table::path_filter(model.filter_text));
    lemma_next_times(model, len);
    lemma_steps_down_cycle(model.selected_index.unwrap(), len);
}

/// Moving up as many times as there are rows on display leads back to the
/// same state, whenever a row is selected.
pub proof fn lemma_previous_full_cycle(model: AppModel)
    requires
        model.valid(),
        model.selected_index.is_some(),
    ensures
        model.previous_times(model.visible().len()) == model,
{
    let len = model.visible().len();
    model.rows.lemma_filter_len(crate::table::path_filter(model.filter_text));
    lemma_previous_times(model, len);
    lemma_steps_up_cycle(model.selected_index.unwrap(), len);
}

/// Where committing a filter leaves fewer rows on display than the selected
/// index needs, the selection snaps to the last row on display, or to none
/// where no row is left.
pub proof fn lemma_submit_snaps_selection(model: AppModel)
    requires
        model.valid(),
        model.input_mode == InputMode::Editing,
        model.selected_index.is_some(),
        model.selected_index.unwrap() >= model.submit_message().visible().len(),
    ensures
        model.submit_message().selected_index == if model.submit_message().visible().len() == 0 {
            None
        } else {
            Some((model.submit_message().visible().len() - 1) as usize)
        },
{
}

/// Every operation keeps the invariant.
pub proof fn lemma_operations_keep_valid(model: AppModel, c: char)
    requires
        model.valid(),
        model.input.len() < usize::MAX,
        model.filter_text.len() <= usize::MAX,
    ensures
        model.next().valid(),
        model.previous().valid(),
        model.next_palette().valid(),
        model.previous_palette().valid(),
        model.set_colors().valid(),
        model.enter_filter_mode().valid(),
        model.enter_char(c).valid(),
        model.submit_message().valid(),
        model.cancel_filter().valid(),
        model.clear().valid(),
{
    let keep = crate::table::path_filter(model.filter_text);
    model.rows.lemma_filter_len(keep);
    model.rows.lemma_filter_len(crate::table::path_filter(model.input));
    lemma_empty_filter_keeps_all(model.rows);
    assert(MAX_ROWS * 4 <= usize::MAX);
}

/// Four steps forward through the themes lead back to the same theme, and so
/// do four steps backward.
pub proof fn lemma_palette_cycle(model: AppModel)
    requires
        model.valid(),
    ensures
        model.next_palette().next_palette().next_palette().next_palette() == model,
        model.previous_palette().previous_palette().previous_palette().previous_palette() == model,
        model.next_palette().previous_palette() == model,
{
}

} // verus!
