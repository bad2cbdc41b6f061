//! Error bodies returned to clients.
use vstd::prelude::*;

verus! {

/// One error message.
#[derive(Clone, Debug)]
pub struct Error {
    message: String,
}

impl View for Error {
    type V = Seq<char>;

    closed spec fn view(&self) -> Seq<char> {
        self.message@
    }
}

impl Error {
    pub fn new(msg: &str) -> (r: Error)
        ensures
            r@ == msg@,
    {
        Error { message: msg.to_owned() }
    }

    pub fn message(&self) -> (r: &str)
        ensures
            r@ == self@,
    {
        self.message.as_str()
    }
}

/// An error together with the context it arose in.
#[derive(Clone, Debug)]
pub struct Problem {
    error: Error,
    context: String,
}

impl View for Problem {
    type V = (Seq<char>, Seq<char>);

    closed spec fn view(&self) -> (Seq<char>, Seq<char>) {
        (self.error@, self.context@)
    }
}

impl Problem {
    pub fn new(error: &Error, ctx: &str) -> (r: Problem)
        ensures
            r@ == (error@, ctx@),
    {
        Problem { error: Error { message: error.message.clone() }, context: ctx.to_owned() }
    }

    pub fn error(&self) -> (r: &Error)
        ensures
            r@ == self@.0,
    {
        &self.error
    }

    pub fn context(&self) -> (r: &str)
        ensures
            r@ == self@.1,
    {
        self.context.as_str()
    }
}

/// The problems that made a query fail.
#[derive(Clone, Debug)]
pub struct MultipleProblemsError {
    problems: Vec<Problem>,
}

impl View for MultipleProblemsError {
    type V = Seq<(Seq<char>, Seq<char>)>;

    closed spec fn view(&self) -> Seq<(Seq<char>, Seq<char>)> {
        self.problems@.map_values(|p: Problem| p@)
    }
}

impl MultipleProblemsError {
    pub fn new(problems: Vec<Problem>) -> (r: MultipleProblemsError)
        ensures
            r@ == problems@.map_values(|p: Problem| p@),
    {
        MultipleProblemsError { problems }
    }

    /// A failure with a single problem.
    pub fn new_with_one_problem(msg: &str, ctx: &str) -> (r: MultipleProblemsError)
        ensures
            r@ == seq![(msg@, ctx@)],
    {
        let mut problems: Vec<Problem> = Vec::new();
        problems.push(Problem::new(&Error::new(msg), ctx));
        let r = MultipleProblemsError { problems };
        assert(r@ =~= seq![(msg@, ctx@)]);
        r
    }

    /// A copy with the same problems.
    pub fn duplicate(&self) -> (r: MultipleProblemsError)
        ensures
            r@ == self@,
    {
        let mut problems: Vec<Problem> = Vec::new();
        let mut i: usize = 0;
        while i < self.problems.len()
            invariant
                i <= self.problems@.len(),
                problems@.map_values(|p: Problem| p@) == self.problems@.take(i as int).map_values(|p: Problem| p@),
            decreases self.problems@.len() - i,
        {
            let p = &self.problems[i];
            let ghost prev = problems@;
            let q = Problem::new(&p.error, p.context.as_str());
            assert(q@ == p@);
            problems.push(q);
            proof {
                assert(problems@ == prev.push(q));
                assert(self.problems@.take(i + 1) =~= self.problems@.take(i as int).push(*p));
                assert(problems@.map_values(|p: Problem| p@) =~= prev.map_values(|p: Problem| p@).push(q@));
                assert(self.problems@.take(i + 1).map_values(|p: Problem| p@) =~= self.problems@.take(i as int).map_values(|p: Problem| p@).push(p@));
            }
            i = i + 1;
        }
        assert(self.problems@.take(i as int) =~= self.problems@);
        MultipleProblemsError { problems }
    }

    pub fn problems(&self) -> (r: &Vec<Problem>)
        ensures
            r@.map_values(|p: Problem| p@) == self@,
    {
        &self.problems
    }
}

} // verus!
