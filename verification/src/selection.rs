//! A plain single-select dialog: string options paired with values, a
//! prefix printed ahead of the selected item, and the shared wrap-around
//! navigation rules.  Unlike [`crate::select::Select`] it has no padding,
//! alignment or clear-after-response configuration.

use vstd::prelude::*;
use vstd::string::StringExecFns;
use crate::key::Key;
use crate::key::next_index;
use crate::key::spec_next_index;

verus! {

/// Represents a single-select dialog over plain string options.
#[must_use]
pub struct Selection<'a, T: Copy> {
    /// The index of the default option (e.g. 0 selects the first option).
    default_index: usize,
    /// The prefix to print ahead of the selected item.
    selected_prefix: &'a str,
    /// Pairs of the text to print and the value that the text stands for.
    options: Vec<(&'a str, T)>,
}

/// The mathematical content of a plain dialog.
#[verifier::ext_equal]
pub ghost struct SelectionModel<T> {
    pub default_index: int,
    pub prefix: Seq<char>,
    pub options: Seq<(Seq<char>, T)>,
}

impl<'a, T: Copy> View for Selection<'a, T> {
    type V = SelectionModel<T>;

    closed spec fn view(&self) -> SelectionModel<T> {
        SelectionModel {
            default_index: self.default_index as int,
            prefix: self.selected_prefix@,
            options: Seq::new(
                self.options@.len(),
                |i: int| (self.options@[i].0@, self.options@[i].1),
            ),
        }
    }
}

/// The rendered row at index `i` when `current` is selected: the prefix
/// ahead of the selected item's text, every other text unmodified.
pub open spec fn spec_selection_row<T>(m: SelectionModel<T>, current: int, i: int) -> Seq<char> {
    if i == current {
        m.prefix + m.options[i].0
    } else {
        m.options[i].0
    }
}

/// What one key event does to a running plain dialog.
pub enum SelectionStep<'a, T: Copy> {
    /// Keep prompting, with this selection index.
    Continue(usize),
    /// The dialog is over; this is the confirmed option.
    Done((&'a str, T)),
}

/// The option a plain dialog returns when driven by a fixed sequence of key
/// events from selection index `cur`: the first Enter confirms the option
/// selected at that moment; `None` if the script holds no Enter.
pub open spec fn spec_selection_script<T>(
    m: SelectionModel<T>,
    cur: int,
    keys: Seq<Key>,
) -> Option<(Seq<char>, T)>
    decreases keys.len(),
{
    if keys.len() == 0 {
        None
    } else if keys[0] is Enter {
        Some(m.options[cur])
    } else {
        spec_selection_script(
            m,
            spec_next_index(cur, keys[0], m.options.len() as int),
            keys.drop_first(),
        )
    }
}

impl<'a, T: Copy> Selection<'a, T> {
    /// Creates a new selection from the prefix to print ahead of the
    /// selected item and pairs of the text to print and the value that the
    /// text stands for.  The first option starts out selected.
    pub fn new(selected_prefix: &'a str, options: Vec<(&'a str, T)>) -> (r: Self)
        ensures
            r@ == (SelectionModel {
                default_index: 0,
                prefix: selected_prefix@,
                options: Seq::new(options@.len(), |i: int| (options@[i].0@, options@[i].1)),
            }),
    {
        let r = Self { default_index: 0, selected_prefix, options };
        proof {
            assert(r@ =~= (SelectionModel {
                default_index: 0,
                prefix: selected_prefix@,
                options: Seq::new(r.options@.len(), |i: int| (r.options@[i].0@, r.options@[i].1)),
            }));
        }
        r
    }

    /// Adds an option to the selection; consumes the calling instance and
    /// returns the transformed one.
    pub fn opt(self, tup: (&'a str, T)) -> (r: Self)
        ensures
            r@ == (SelectionModel {
                options: self@.options.push((tup.0@, tup.1)),
                ..self@
            }),
    {
        let ghost m = self@;
        let mut s = self;
        s.options.push(tup);
        proof {
            assert(s@.options =~= m.options.push((tup.0@, tup.1)));
            assert(s@ =~= (SelectionModel { options: m.options.push((tup.0@, tup.1)), ..m }));
        }
        s
    }

    /// Sets the prefix for the selected item.  Consumes the `Selection` and
    /// returns a transformed one.
    pub fn prefix(self, selected_prefix: &'a str) -> (r: Self)
        ensures
            r@ == (SelectionModel { prefix: selected_prefix@, ..self@ }),
    {
        let r = Self { selected_prefix, ..self };
        proof {
            assert(r@ =~= (SelectionModel { prefix: selected_prefix@, ..self@ }));
        }
        r
    }

    /// Sets the default option: the one that is initially selected.
    /// Consumes the `Selection` and returns a transformed one.
    pub fn set_default(self, default_index: usize) -> (r: Self)
        ensures
            r@ == (SelectionModel { default_index: default_index as int, ..self@ }),
    {
        let r = Self { default_index, ..self };
        proof {
            assert(r@ =~= (SelectionModel { default_index: default_index as int, ..self@ }));
        }
        r
    }

    /// How many options the dialog holds.
    pub fn num_options(&self) -> (r: usize)
        ensures
            r == self@.options.len(),
    {
        self.options.len()
    }

    /// The index the selection starts from when the prompt runs.
    pub fn start_index(&self) -> (r: usize)
        ensures
            r == self@.default_index,
    {
        self.default_index
    }

    /// Renders one frame: the row of every option, in index order, with
    /// `current_index` selected.
    pub fn render_rows(&self, current_index: usize) -> (rows: Vec<String>)
        ensures
            rows@.len() == self@.options.len(),
            forall|i: int|
                0 <= i < rows@.len() ==> rows@[i]@ == spec_selection_row(
                    self@,
                    current_index as int,
                    i,
                ),
    {
        let mut rows: Vec<String> = Vec::new();
        let mut i: usize = 0;
        while i < self.options.len()
            invariant
                i <= self.options.len(),
                rows@.len() == i,
                forall|j: int|
                    0 <= j < i ==> rows@[j]@ == spec_selection_row(
                        self@,
                        current_index as int,
                        j,
                    ),
            decreases self.options.len() - i,
        {
            let text: &str = self.options[i].0;
            proof {
                assert(self@.options[i as int].0 == text@);
            }
            let row: String = if i == current_index {
                self.selected_prefix.to_owned().concat(text)
            } else {
                text.to_owned()
            };
            let ghost old_rows = rows@;
            rows.push(row);
            proof {
                assert forall|j: int| 0 <= j < i + 1 implies rows@[j]@ == spec_selection_row(
                    self@,
                    current_index as int,
                    j,
                ) by {
                    if j < i {
                        assert(rows@[j] == old_rows[j]);
                    }
                }
            }
            i = i + 1;
        }
        rows
    }

    /// Dispatches one key event: Enter confirms and returns the option at
    /// `current_index`; an arrow key moves the selection with wrap-around;
    /// any other key leaves it where it is.
    pub fn handle_key(&self, current_index: usize, key: Key) -> (r: SelectionStep<'a, T>)
        requires
            self@.options.len() > 0,
            current_index < self@.options.len(),
        ensures
            key is Enter ==> (r matches SelectionStep::Done(p) && (p.0@, p.1)
                == self@.options[current_index as int]),
            !(key is Enter) ==> (r matches SelectionStep::Continue(next) && next
                == spec_next_index(current_index as int, key, self@.options.len() as int)),
            !(key is Enter) ==> 0 <= spec_next_index(
                current_index as int,
                key,
                self@.options.len() as int,
            ) < self@.options.len(),
    {
        match key {
            Key::Enter => {
                let tup = self.options[current_index];
                SelectionStep::Done(tup)
            },
            _ => SelectionStep::Continue(next_index(current_index, key, self.options.len())),
        }
    }

    /// Drives the dialog over a fixed sequence of key events, starting from
    /// the default index: the first Enter confirms the option selected at
    /// that moment; a script with no Enter yields nothing.
    pub fn run_script(&self, keys: &Vec<Key>) -> (r: Option<(&'a str, T)>)
        requires
            self@.options.len() > 0,
            self@.default_index < self@.options.len(),
        ensures
            r matches Some(p) ==> spec_selection_script(self@, self@.default_index, keys@)
                == Some((p.0@, p.1)),
            r is None ==> spec_selection_script(self@, self@.default_index, keys@) is None,
    {
        let mut cur: usize = self.default_index;
        let mut t: usize = 0;
        proof {
            assert(keys@.subrange(0, keys@.len() as int) =~= keys@);
        }
        while t < keys.len()
            invariant
                t <= keys@.len(),
                self@.options.len() > 0,
                cur < self@.options.len(),
                spec_selection_script(self@, self@.default_index, keys@)
                    == spec_selection_script(
                    self@,
                    cur as int,
                    keys@.subrange(t as int, keys@.len() as int),
                ),
            decreases keys@.len() - t,
        {
            let ghost rest = keys@.subrange(t as int, keys@.len() as int);
            let key = keys[t];
            proof {
                assert(rest[0] == key);
                assert(rest.drop_first() =~= keys@.subrange(t + 1, keys@.len() as int));
            }
            match self.handle_key(cur, key) {
                SelectionStep::Done(tup) => {
                    proof {
                        assert(key is Enter);
                        assert(spec_selection_script(self@, cur as int, rest) == Some(
                            self@.options[cur as int],
                        ));
                    }
                    return Some(tup);
                },
                SelectionStep::Continue(next) => {
                    proof {
                        assert(!(key is Enter));
                        assert(spec_selection_script(self@, cur as int, rest)
                            == spec_selection_script(self@, next as int, rest.drop_first()));
                    }
                    cur = next;
                },
            }
            t = t + 1;
        }
        proof {
            assert(keys@.subrange(keys@.len() as int, keys@.len() as int)
                =~= Seq::<Key>::empty());
        }
        None
    }
}

} // verus!
