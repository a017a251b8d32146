//! The single-select dialog: an ordered list of options, a movable
//! selection, and the pure rendering and navigation rules behind the
//! interactive prompt.
//!
//! Everything here is free of I/O.  An interactive front end renders the
//! rows this module computes, feeds each key event to [`Select::handle_key`],
//! and erases [`Select::cleanup_line_count`] lines once a choice is
//! confirmed.

use vstd::prelude::*;
use vstd::string::StringExecFns;
use crate::key::count_downs;
use crate::key::count_ups;
use crate::key::lemma_navigation_congruence;
use crate::key::lemma_next_index_formula;
use crate::key::nav_after;
use crate::key::Key;
use crate::key::next_index;
use crate::key::spec_next_index;
use crate::width::lemma_strip_no_escape;
use crate::width::grapheme_count;
use crate::width::spec_visible_width;
use crate::width::strip_ansi;
use crate::width::visible_width;

verus! {

/// Represents a single option in a [`Select`] dialog.
pub struct SelectOpt<C: Copy> {
    /// The text to render by default.
    pub display_text: String,
    /// The text to render instead when the option is currently selected.
    pub selected_text: Option<String>,
    /// The value that the option represents; a prompt returns it when the
    /// option is confirmed.
    pub value: C,
}

/// The mathematical content of one option: its two texts and its value.
#[verifier::ext_equal]
pub ghost struct OptModel<C> {
    pub display: Seq<char>,
    pub selected: Option<Seq<char>>,
    pub value: C,
}

impl<C: Copy> View for SelectOpt<C> {
    type V = OptModel<C>;

    open spec fn view(&self) -> OptModel<C> {
        OptModel {
            display: self.display_text@,
            selected: self.selected_text.deep_view(),
            value: self.value,
        }
    }
}

impl<C: Copy> DeepView for SelectOpt<C> {
    type V = OptModel<C>;

    open spec fn deep_view(&self) -> OptModel<C> {
        self.view()
    }
}

impl<C: Copy> SelectOpt<C> {
    /// Constructs a new option.  Prompts return `value` when the option is
    /// confirmed.
    pub fn new(display_text: String, selected_text: Option<String>, value: C) -> (r: Self)
        ensures
            r@ == (OptModel {
                display: display_text@,
                selected: selected_text.deep_view(),
                value,
            }),
    {
        Self { display_text, selected_text, value }
    }
}

/// Represents a single-select dialog.
#[must_use]
pub struct Select<C: Copy> {
    /// The index of the default option (e.g. 0 selects the first option).
    default_index: usize,
    /// The number of blank lines printed above the header message.
    padding: usize,
    /// Whether non-selected rows are indented to line up with the selected
    /// one.
    is_aligned: bool,
    /// The prefix printed ahead of the currently selected item.
    prefix: String,
    /// Whether the rendered block is erased once an answer is given.
    clear_after_response: bool,
    /// The options the dialog displays when prompting.
    options: Vec<SelectOpt<C>>,
}

/// The mathematical content of a dialog: its configuration and options.
#[verifier::ext_equal]
pub ghost struct SelectModel<C> {
    pub default_index: int,
    pub padding: int,
    pub aligned: bool,
    pub prefix: Seq<char>,
    pub clear_after: bool,
    pub options: Seq<OptModel<C>>,
}

impl<C: Copy> View for Select<C> {
    type V = SelectModel<C>;

    closed spec fn view(&self) -> SelectModel<C> {
        SelectModel {
            default_index: self.default_index as int,
            padding: self.padding as int,
            aligned: self.is_aligned,
            prefix: self.prefix@,
            clear_after: self.clear_after_response,
            options: self.options.deep_view(),
        }
    }
}

/// The indentation of the row at index `i` when `current` is selected: the
/// prefix on the selected row, a space for each visible grapheme of the
/// prefix on the other rows of an aligned dialog, and nothing otherwise.
pub open spec fn spec_row_indent<C>(m: SelectModel<C>, current: int, i: int) -> Seq<char> {
    if i == current {
        m.prefix
    } else if m.aligned {
        Seq::new(spec_visible_width(m.prefix), |k: int| ' ')
    } else {
        Seq::empty()
    }
}

/// The text of the row at index `i` when `current` is selected: the
/// dedicated selected-form text when the row is selected and has one, its
/// display text otherwise.
pub open spec fn spec_row_text<C>(m: SelectModel<C>, current: int, i: int) -> Seq<char> {
    if i == current && m.options[i].selected is Some {
        m.options[i].selected->0
    } else {
        m.options[i].display
    }
}

/// The full rendered row at index `i` when `current` is selected.
pub open spec fn spec_row<C>(m: SelectModel<C>, current: int, i: int) -> Seq<char> {
    spec_row_indent(m, current, i) + spec_row_text(m, current, i)
}

/// `rows` is exactly the rendering of `m` with `current` selected.
pub open spec fn rows_match<C>(m: SelectModel<C>, current: int, rows: Seq<Seq<char>>) -> bool {
    &&& rows.len() == m.options.len()
    &&& forall|i: int| 0 <= i < rows.len() ==> rows[i] == spec_row(m, current, i)
}

/// Law: rendering is a pure function of the dialog and the selection index.
/// Two renders with an unchanged dialog and an unchanged selection produce
/// identical rows.
pub proof fn lemma_render_idempotent<C>(
    m: SelectModel<C>,
    current: int,
    r1: Seq<Seq<char>>,
    r2: Seq<Seq<char>>,
)
    requires
        rows_match(m, current, r1),
        rows_match(m, current, r2),
    ensures
        r1 == r2,
{
    assert(r1 =~~= r2);
}

/// Law: over a dialog with a non-empty option list and a valid default
/// index, any sequence of key events keeps the selection index inside
/// `[0, N)`, and the index it lands on is congruent to
/// `default_index + downs - ups` modulo `N`.
pub proof fn lemma_select_navigation<C>(m: SelectModel<C>, keys: Seq<Key>)
    requires
        m.options.len() > 0,
        0 <= m.default_index < m.options.len(),
    ensures
        0 <= nav_after(m.default_index, keys, m.options.len() as int) < m.options.len(),
        nav_after(m.default_index, keys, m.options.len() as int) == (m.default_index
            + count_downs(keys) - count_ups(keys)) % (m.options.len() as int),
{
    lemma_navigation_congruence(m.default_index, keys, m.options.len() as int);
}

/// What one key event does to a running dialog: either the selection moves
/// (or stays) and the dialog re-renders, or Enter confirms the current
/// option and the dialog is done.
pub enum SelectStep<C: Copy> {
    /// Keep prompting, with this selection index.
    Continue(usize),
    /// The dialog is over; this is the confirmed option's value.
    Done(C),
}

/// The value a dialog returns when it is driven by a fixed sequence of key
/// events from selection index `cur`: the first Enter confirms the option
/// selected at that moment; `None` if the script holds no Enter.
pub open spec fn spec_script_result<C>(m: SelectModel<C>, cur: int, keys: Seq<Key>) -> Option<C>
    decreases keys.len(),
{
    if keys.len() == 0 {
        None
    } else if keys[0] is Enter {
        Some(m.options[cur].value)
    } else {
        spec_script_result(
            m,
            spec_next_index(cur, keys[0], m.options.len() as int),
            keys.drop_first(),
        )
    }
}

/// A script of navigation keys lands where `nav_after` says: following it
/// with Enter confirms the option at that index.
proof fn lemma_script_lands_on_nav_index<C>(m: SelectModel<C>, cur: int, keys: Seq<Key>)
    requires
        m.options.len() > 0,
        0 <= cur < m.options.len(),
        forall|k: int| 0 <= k < keys.len() ==> !(keys[k] is Enter),
    ensures
        spec_script_result(m, cur, keys.push(Key::Enter)) == Some(
            m.options[nav_after(cur, keys, m.options.len() as int)].value,
        ),
    decreases keys.len(),
{
    let n = m.options.len() as int;
    if keys.len() == 0 {
        assert(keys.push(Key::Enter)[0] is Enter);
    } else {
        lemma_next_index_formula(cur, keys[0], n);
        assert(keys.push(Key::Enter).drop_first() =~= keys.drop_first().push(Key::Enter));
        lemma_script_lands_on_nav_index(m, spec_next_index(cur, keys[0], n), keys.drop_first());
    }
}

/// Law: after any sequence of navigation keys, Enter confirms the option at
/// the congruent index — `default_index + downs - ups` modulo the option
/// count.
pub proof fn lemma_confirm_congruent_option<C>(m: SelectModel<C>, keys: Seq<Key>)
    requires
        m.options.len() > 0,
        0 <= m.default_index < m.options.len(),
        forall|k: int| 0 <= k < keys.len() ==> !(keys[k] is Enter),
    ensures
        spec_script_result(m, m.default_index, keys.push(Key::Enter)) == Some(
            m.options[(m.default_index + count_downs(keys) - count_ups(keys)) % (
            m.options.len() as int)].value,
        ),
{
    lemma_select_navigation(m, keys);
    lemma_script_lands_on_nav_index(m, m.default_index, keys);
}

impl<C: Copy> Select<C> {
    /// Creates a new dialog from the prefix to print ahead of the selected
    /// item and the options to choose from.  Defaults: first option
    /// selected, no padding, no alignment, no clearing after the response.
    pub fn new(selected_prefix: String, options: Vec<SelectOpt<C>>) -> (r: Self)
        ensures
            r@ == (SelectModel {
                default_index: 0,
                padding: 0,
                aligned: false,
                prefix: selected_prefix@,
                clear_after: false,
                options: options.deep_view(),
            }),
    {
        Self {
            default_index: 0,
            padding: 0,
            is_aligned: false,
            prefix: selected_prefix,
            clear_after_response: false,
            options,
        }
    }

    /// Adds an option to the dialog; consumes the calling instance and
    /// returns the transformed one.
    pub fn opt(self, select_opt: SelectOpt<C>) -> (r: Self)
        ensures
            r@ == (SelectModel { options: self@.options.push(select_opt@), ..self@ }),
    {
        let ghost m = self@;
        let ghost added = select_opt@;
        let mut options_vec = self.options;
        options_vec.push(select_opt);
        proof {
            assert(options_vec.deep_view() =~= m.options.push(added));
        }
        Self { options: options_vec, ..self }
    }

    /// Sets the padding: the number of blank lines that separate the dialog
    /// from the text above it.  Consumes the `Select` and returns a
    /// transformed one.
    pub fn padding(self, num_lines: usize) -> (r: Self)
        ensures
            r@ == (SelectModel { padding: num_lines as int, ..self@ }),
    {
        Self { padding: num_lines, ..self }
    }

    /// Sets the prefix for the selected item.  Consumes the `Select` and
    /// returns a transformed one.
    pub fn prefix(self, selected_prefix: String) -> (r: Self)
        ensures
            r@ == (SelectModel { prefix: selected_prefix@, ..self@ }),
    {
        Self { prefix: selected_prefix, ..self }
    }

    /// Indents the non-selected options by the visible width of the prefix,
    /// so every row starts at the same column.  Consumes the `Select` and
    /// returns a transformed one.
    pub fn aligned(self) -> (r: Self)
        ensures
            r@ == (SelectModel { aligned: true, ..self@ }),
    {
        Self { is_aligned: true, ..self }
    }

    /// Makes the prompt erase its rendered block after a response is given.
    /// Consumes the `Select` and returns a transformed one.
    pub fn clear_after(self) -> (r: Self)
        ensures
            r@ == (SelectModel { clear_after: true, ..self@ }),
    {
        Self { clear_after_response: true, ..self }
    }

    /// Sets the default option: the one that is initially selected.
    /// Consumes the `Select` and returns a transformed one.
    pub fn default_opt(self, default_index: usize) -> (r: Self)
        ensures
            r@ == (SelectModel { default_index: default_index as int, ..self@ }),
    {
        Self { default_index, ..self }
    }

    /// How many options the dialog holds.
    pub fn num_options(&self) -> (r: usize)
        ensures
            r == self@.options.len(),
    {
        self.options.len()
    }

    /// The index the selection starts from when the prompt runs.
    pub fn start_index(&self) -> (r: usize)
        ensures
            r == self@.default_index,
    {
        self.default_index
    }

    /// How many blank lines the prompt prints above the header message.
    pub fn padding_lines(&self) -> (r: usize)
        ensures
            r == self@.padding,
    {
        self.padding
    }

    /// Renders one frame: the row of every option, in index order, with
    /// `current_index` selected.
    pub fn render_rows(&self, current_index: usize) -> (rows: Vec<String>)
        ensures
            rows_match(self@, current_index as int, rows.deep_view()),
    {
        let w = visible_width(self.prefix.as_str());
        let mut pad = String::new();
        let mut k: usize = 0;
        while k < w
            invariant
                k <= w,
                pad@ =~= Seq::new(k as nat, |j: int| ' '),
            decreases w - k,
        {
            proof {
                reveal_strlit(" ");
            }
            pad.append(" ");
            k = k + 1;
        }
        let mut rows: Vec<String> = Vec::new();
        let mut i: usize = 0;
        while i < self.options.len()
            invariant
                i <= self.options.len(),
                w == spec_visible_width(self@.prefix),
                pad@ == Seq::new(w as nat, |j: int| ' '),
                rows@.len() == i,
                forall|j: int| 0 <= j < i ==> rows@[j]@ == spec_row(self@, current_index as int, j),
            decreases self.options.len() - i,
        {
            let o = &self.options[i];
            proof {
                assert(o.deep_view() == self@.options[i as int]);
            }
            let row: String = if i == current_index {
                let text: &str = match &o.selected_text {
                    Some(t) => t.as_str(),
                    None => o.display_text.as_str(),
                };
                self.prefix.clone().concat(text)
            } else if self.is_aligned {
                pad.clone().concat(o.display_text.as_str())
            } else {
                o.display_text.clone()
            };
            proof {
                assert(row@ =~= spec_row(self@, current_index as int, i as int));
            }
            let ghost old_rows = rows@;
            rows.push(row);
            proof {
                assert forall|j: int| 0 <= j < i + 1 implies rows@[j]@ == spec_row(
                    self@,
                    current_index as int,
                    j,
                ) by {
                    if j < i {
                        assert(rows@[j] == old_rows[j]);
                    }
                }
            }
            i = i + 1;
        }
        proof {
            assert forall|j: int| 0 <= j < rows@.len() implies rows.deep_view()[j] == spec_row(
                self@,
                current_index as int,
                j,
            ) by {
                assert(rows.deep_view()[j] == rows@[j]@);
            }
        }
        rows
    }

    /// Law: in an aligned dialog whose prefix carries no escape sequences,
    /// the visible text of every row begins at the same column — the
    /// visible width of the prefix.  This function returns the column
    /// (counted in grapheme clusters) at which row `i`'s text begins.
    pub fn row_text_column(&self, current_index: usize, i: usize) -> (col: usize)
        ensures
            col == grapheme_count(
                strip_ansi(spec_row_indent(self@, current_index as int, i as int)),
            ),
            self@.aligned && (forall|k: int|
                0 <= k < self@.prefix.len() ==> self@.prefix[k] != '\x1B') ==> col
                == spec_visible_width(self@.prefix),
    {
        if i == current_index {
            let col = visible_width(self.prefix.as_str());
            proof {
                if forall|k: int| 0 <= k < self@.prefix.len() ==> self@.prefix[k] != '\x1B' {
                    lemma_strip_no_escape(self@.prefix);
                }
            }
            col
        } else if self.is_aligned {
            let w = visible_width(self.prefix.as_str());
            let mut pad = String::new();
            let mut k: usize = 0;
            while k < w
                invariant
                    k <= w,
                    pad@ =~= Seq::new(k as nat, |j: int| ' '),
                decreases w - k,
            {
                proof {
                    reveal_strlit(" ");
                }
                pad.append(" ");
                k = k + 1;
            }
            proof {
                assert(forall|j: int| 0 <= j < pad@.len() ==> pad@[j] == ' ');
                assert(forall|j: int| 0 <= j < pad@.len() ==> pad@[j] != '\x1B');
                lemma_strip_no_escape(pad@);
            }
            let col = visible_width(pad.as_str());
            proof {
                assert(col == pad@.len());
                assert(spec_row_indent(self@, current_index as int, i as int) =~= pad@);
                if forall|j: int| 0 <= j < self@.prefix.len() ==> self@.prefix[j] != '\x1B' {
                    lemma_strip_no_escape(self@.prefix);
                }
            }
            col
        } else {
            proof {
                reveal_strlit("");
                assert(""@ =~= Seq::<char>::empty());
                assert(spec_row_indent(self@, current_index as int, i as int)
                    =~= Seq::<char>::empty());
            }
            let col = visible_width("");
            col
        }
    }

    /// Dispatches one key event: Enter confirms and returns the value of
    /// the option at `current_index`; an arrow key moves the selection with
    /// wrap-around; any other key leaves it where it is.
    pub fn handle_key(&self, current_index: usize, key: Key) -> (r: SelectStep<C>)
        requires
            self@.options.len() > 0,
            current_index < self@.options.len(),
        ensures
            key is Enter ==> r == SelectStep::Done(self@.options[current_index as int].value),
            !(key is Enter) ==> (r matches SelectStep::Continue(next) && next == spec_next_index(
                current_index as int,
                key,
                self@.options.len() as int,
            )),
            !(key is Enter) ==> 0 <= spec_next_index(
                current_index as int,
                key,
                self@.options.len() as int,
            ) < self@.options.len(),
    {
        match key {
            Key::Enter => {
                let o = &self.options[current_index];
                proof {
                    assert(o.deep_view() == self@.options[current_index as int]);
                }
                SelectStep::Done(o.value)
            },
            _ => SelectStep::Continue(next_index(current_index, key, self.options.len())),
        }
    }

    /// How many terminal lines the prompt erases once a choice is
    /// confirmed: the option rows, the padding and the header line when the
    /// dialog clears after its response, and none otherwise.
    pub fn cleanup_line_count(&self) -> (r: usize)
        requires
            self@.options.len() + self@.padding + 1 <= usize::MAX,
        ensures
            self@.clear_after ==> r == self@.options.len() + self@.padding + 1,
            !self@.clear_after ==> r == 0,
    {
        if self.clear_after_response {
            self.options.len() + self.padding + 1
        } else {
            0
        }
    }

    /// Drives the dialog over a fixed sequence of key events, starting from
    /// the default index: the first Enter confirms the option selected at
    /// that moment and yields its value; a script with no Enter yields
    /// nothing.
    pub fn run_script(&self, keys: &Vec<Key>) -> (r: Option<C>)
        requires
            self@.options.len() > 0,
            self@.default_index < self@.options.len(),
        ensures
            r == spec_script_result(self@, self@.default_index, keys@),
    {
        let mut cur: usize = self.default_index;
        let mut t: usize = 0;
        proof {
            assert(keys@.subrange(0, keys@.len() as int) =~= keys@);
        }
        while t < keys.len()
            invariant
                t <= keys@.len(),
                self@.options.len() > 0,
                cur < self@.options.len(),
                spec_script_result(self@, self@.default_index, keys@) == spec_script_result(
                    self@,
                    cur as int,
                    keys@.subrange(t as int, keys@.len() as int),
                ),
            decreases keys@.len() - t,
        {
            let ghost rest = keys@.subrange(t as int, keys@.len() as int);
            let key = keys[t];
            proof {
                assert(rest[0] == key);
                assert(rest.drop_first() =~= keys@.subrange(t + 1, keys@.len() as int));
            }
            match self.handle_key(cur, key) {
                SelectStep::Done(v) => {
                    proof {
                        assert(key is Enter);
                        assert(spec_script_result(self@, cur as int, rest) == Some(
                            self@.options[cur as int].value,
                        ));
                    }
                    return Some(v);
                },
                SelectStep::Continue(next) => {
                    proof {
                        assert(!(key is Enter));
                        assert(next as int == spec_next_index(
                            cur as int,
                            key,
                            self@.options.len() as int,
                        ));
                        assert(spec_script_result(self@, cur as int, rest)
                            == spec_script_result(self@, next as int, rest.drop_first()));
                    }
                    cur = next;
                },
            }
            t = t + 1;
        }
        proof {
            assert(keys@.subrange(keys@.len() as int, keys@.len() as int)
                =~= Seq::<Key>::empty());
        }
        None
    }
}

} // verus!
