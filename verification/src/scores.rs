//! The two score collections of a binary classifier and where they come from.

use vstd::prelude::*;

verus! {

/// Why no pair of score collections could be produced.
#[derive(Debug, Clone, Copy, PartialEq, Eq, Structural)]
pub enum ScoreError {
    /// Neither both collections nor a table to read them from was supplied.
    NoScores,
    /// One of the two collections holds no score.
    InvalidInput,
    /// The table is not well-formed delimited text.
    MalformedTable,
    /// A row of the table has no cell for one of the two classes.
    MissingColumn,
}

/// Where the scores of one evaluation are taken from.
#[derive(Debug)]
pub enum ScoreSource<'a, T> {
    /// Both collections were handed over directly.
    Given { class0: Vec<T>, class1: Vec<T> },
    /// The collections have to be read from the table stored at `path`.
    Table { path: &'a str },
}

/// The source that a caller's three optional inputs select: the two
/// collections when both are present, otherwise the table, otherwise nothing.
pub open spec fn score_source<'a, T>(
    c0scores: Option<Vec<T>>,
    c1scores: Option<Vec<T>>,
    score_path: Option<&'a str>,
) -> Result<ScoreSource<'a, T>, ScoreError> {
    match (c0scores, c1scores, score_path) {
        (Some(class0), Some(class1), _) => Ok(ScoreSource::Given { class0, class1 }),
        (_, _, Some(path)) => Ok(ScoreSource::Table { path }),
        _ => Err(ScoreError::NoScores),
    }
}

/// Chooses the source of the scores. Collections given directly win over a
/// table; a single collection without its partner is ignored in favour of
/// the table; with neither there is nothing to evaluate.
pub fn get_scores<'a, T>(
    c0scores: Option<Vec<T>>,
    c1scores: Option<Vec<T>>,
    score_path: Option<&'a str>,
) -> (r: Result<ScoreSource<'a, T>, ScoreError>)
    ensures
        r == score_source(c0scores, c1scores, score_path),
{
    match (c0scores, c1scores) {
        (Some(class0), Some(class1)) => Ok(ScoreSource::Given { class0, class1 }),
        _ => match score_path {
            Some(path) => Ok(ScoreSource::Table { path }),
            None => Err(ScoreError::NoScores),
        },
    }
}

/// The scores of the instances of class 0 and of class 1, in the order in
/// which they were supplied. Both classes are represented: without a score
/// on either side no operating point of the classifier is defined.
#[derive(Debug)]
pub struct BinaryClassScores<T> {
    class0: Vec<T>,
    class1: Vec<T>,
}

impl<T> BinaryClassScores<T> {
    /// The scores of class 0.
    pub closed spec fn class0_scores(&self) -> Seq<T> {
        self.class0@
    }

    /// The scores of class 1.
    pub closed spec fn class1_scores(&self) -> Seq<T> {
        self.class1@
    }

    #[verifier::type_invariant]
    spec fn wf(&self) -> bool {
        self.class0@.len() > 0 && self.class1@.len() > 0
    }

    /// Pairs the two collections, refusing the pair when either is empty.
    pub fn new(class0: Vec<T>, class1: Vec<T>) -> (r: Result<Self, ScoreError>)
        ensures
            r is Err <==> class0@.len() == 0 || class1@.len() == 0,
            r is Err ==> r == Err::<Self, ScoreError>(ScoreError::InvalidInput),
            r is Ok ==> r->Ok_0.class0_scores() == class0@ && r->Ok_0.class1_scores()
                == class1@,
    {
        if class0.len() == 0 || class1.len() == 0 {
            Err(ScoreError::InvalidInput)
        } else {
            Ok(BinaryClassScores { class0, class1 })
        }
    }

    /// The scores of class 0; there is at least one.
    pub fn class0(&self) -> (r: &Vec<T>)
        ensures
            r@ == self.class0_scores(),
            r@.len() > 0,
    {
        proof {
            use_type_invariant(self);
        }
        &self.class0
    }

    /// The scores of class 1; there is at least one.
    pub fn class1(&self) -> (r: &Vec<T>)
        ensures
            r@ == self.class1_scores(),
            r@.len() > 0,
    {
        proof {
            use_type_invariant(self);
        }
        &self.class1
    }

    /// Gives the two collections back, class 0 first.
    pub fn into_scores(self) -> (r: (Vec<T>, Vec<T>))
        ensures
            r.0@ == self.class0_scores(),
            r.1@ == self.class1_scores(),
            r.0@.len() > 0,
            r.1@.len() > 0,
    {
        proof {
            use_type_invariant(&self);
        }
        (self.class0, self.class1)
    }

    /// The number of scores of class 0 and of class 1, neither of them zero.
    pub fn sizes(&self) -> (r: (usize, usize))
        ensures
            r.0 == self.class0_scores().len(),
            r.1 == self.class1_scores().len(),
            r.0 > 0,
            r.1 > 0,
    {
        proof {
            use_type_invariant(self);
        }
        (self.class0.len(), self.class1.len())
    }
}

} // verus!
