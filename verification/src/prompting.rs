//! Text prompts with custom validation: a [`Predicate`] couples a
//! validation function with the message to print when it fails, and a
//! [`Prompter`] strings predicates together, tested in the order they were
//! added.  The read-retry loop that feeds user input to these types lives
//! outside the library.

use vstd::prelude::*;
use core::marker::PhantomData;

verus! {

/// Type used to validate a value of a type under a validation (boolean)
/// function.
#[must_use]
pub struct Predicate<'a, T, F> where F: Fn(&T) -> bool {
    /// Function that determines whether the predicate passes.
    validation_fn: F,
    /// Message passed back when validation fails.
    validation_msg: &'a str,
    /// Marks the validated type, which only `validation_fn` mentions.
    validated: PhantomData<T>,
}

impl<'a, T, F> Predicate<'a, T, F> where F: Fn(&T) -> bool {
    /// The predicate's validation function, for contracts.
    pub closed spec fn spec_validation_fn(&self) -> F {
        self.validation_fn
    }

    /// The predicate's validation message, for contracts.
    pub closed spec fn spec_invalid_msg(&self) -> Seq<char> {
        self.validation_msg@
    }

    /// Creates a [`Predicate`] from a validation message `validation_msg`,
    /// printed when validation fails, and a validation function
    /// `validation_fn` that returns whether the value being checked is
    /// valid.
    pub fn new(validation_msg: &'a str, validation_fn: F) -> (r: Self)
        ensures
            r.spec_validation_fn() == validation_fn,
            r.spec_invalid_msg() == validation_msg@,
    {
        Self { validation_fn, validation_msg, validated: PhantomData }
    }

    /// Calls the predicate's validation function, returning whether `val`
    /// passed (is valid).
    pub fn validate(&self, val: &T) -> (r: bool)
        requires
            call_requires(self.spec_validation_fn(), (val,)),
        ensures
            call_ensures(self.spec_validation_fn(), (val,), r),
    {
        (self.validation_fn)(val)
    }

    /// Returns the predicate's validation message.
    pub fn invalid_msg(&self) -> (r: &str)
        ensures
            r@ == self.spec_invalid_msg(),
    {
        self.validation_msg
    }
}

/// Validates values converted from user input: a conversion error message,
/// and a list of [`Predicate`]s evaluated in the order they were added —
/// the message of the first one to fail is the one to print.
#[must_use]
pub struct Prompter<'a, T, F> where F: Fn(&T) -> bool {
    /// Message passed back when conversion fails.
    conversion_err_msg: &'a str,
    /// Collection of predicates to evaluate before accepting the input.
    predicates: Vec<Predicate<'a, T, F>>,
}

impl<'a, T, F> Prompter<'a, T, F> where F: Fn(&T) -> bool {
    /// The prompter's conversion error message, for contracts.
    pub closed spec fn spec_conversion_err_msg(&self) -> Seq<char> {
        self.conversion_err_msg@
    }

    /// The prompter's predicates, in the order they are tested, for
    /// contracts.
    pub closed spec fn spec_predicates(&self) -> Seq<Predicate<'a, T, F>> {
        self.predicates@
    }

    /// Creates a `Prompter` with a `conversion_err_msg` to print if the
    /// type conversion fails, and no predicates yet.
    pub fn new(conversion_err_msg: &'a str) -> (r: Self)
        ensures
            r.spec_conversion_err_msg() == conversion_err_msg@,
            r.spec_predicates() == Seq::<Predicate<'a, T, F>>::empty(),
    {
        Self { conversion_err_msg, predicates: Vec::new() }
    }

    /// Creates a `Prompter` with a `conversion_err_msg` to print if the
    /// type conversion fails, and [`Predicate`]s to evaluate when an input
    /// is received.
    pub fn from_preds(conversion_err_msg: &'a str, predicates: Vec<Predicate<'a, T, F>>) -> (r:
        Self)
        ensures
            r.spec_conversion_err_msg() == conversion_err_msg@,
            r.spec_predicates() == predicates@,
    {
        Self { conversion_err_msg, predicates }
    }

    /// Consumes the existing `Prompter` and returns a new `Prompter` that
    /// includes the new predicate, tested after the existing ones.
    pub fn pred(self, predicate: Predicate<'a, T, F>) -> (r: Self)
        ensures
            r.spec_conversion_err_msg() == self.spec_conversion_err_msg(),
            r.spec_predicates() == self.spec_predicates().push(predicate),
    {
        let mut s = self;
        s.predicates.push(predicate);
        s
    }

    /// Returns the prompter's conversion error message.
    pub fn conversion_msg(&self) -> (r: &str)
        ensures
            r@ == self.spec_conversion_err_msg(),
    {
        self.conversion_err_msg
    }

    /// How many predicates the prompter tests.
    pub fn num_preds(&self) -> (r: usize)
        ensures
            r == self.spec_predicates().len(),
    {
        self.predicates.len()
    }

    /// Returns the validation message of the predicate at index `i`.
    pub fn invalid_msg_at(&self, i: usize) -> (r: &str)
        requires
            i < self.spec_predicates().len(),
        ensures
            r@ == self.spec_predicates()[i as int].spec_invalid_msg(),
    {
        self.predicates[i].invalid_msg()
    }

    /// The decision step of the prompt loop: the index of the first
    /// predicate, in the order they were added, whose validation function
    /// rejects `val`, or `None` when every predicate accepts it.
    pub fn first_failing(&self, val: &T) -> (r: Option<usize>)
        requires
            forall|i: int|
                0 <= i < self.spec_predicates().len() ==> call_requires(
                    self.spec_predicates()[i].spec_validation_fn(),
                    (val,),
                ),
        ensures
            r matches Some(i) ==> i < self.spec_predicates().len() && call_ensures(
                self.spec_predicates()[i as int].spec_validation_fn(),
                (val,),
                false,
            ) && forall|j: int|
                0 <= j < i ==> call_ensures(
                    self.spec_predicates()[j].spec_validation_fn(),
                    (val,),
                    true,
                ),
            r is None ==> forall|j: int|
                0 <= j < self.spec_predicates().len() ==> call_ensures(
                    self.spec_predicates()[j].spec_validation_fn(),
                    (val,),
                    true,
                ),
    {
        let mut i: usize = 0;
        while i < self.predicates.len()
            invariant
                i <= self.spec_predicates().len(),
                forall|k: int|
                    0 <= k < self.spec_predicates().len() ==> call_requires(
                        self.spec_predicates()[k].spec_validation_fn(),
                        (val,),
                    ),
                forall|j: int|
                    0 <= j < i ==> call_ensures(
                        self.spec_predicates()[j].spec_validation_fn(),
                        (val,),
                        true,
                    ),
            decreases self.spec_predicates().len() - i,
        {
            let p = &self.predicates[i];
            if !p.validate(val) {
                return Some(i);
            }
            i = i + 1;
        }
        None
    }
}

} // verus!
