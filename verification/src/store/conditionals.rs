use crate::store::error::{Error, ErrorView};
use vstd::prelude::*;
use vstd::string::*;

verus! {

/// The conditions of one atomic write, each with whether it failed and with
/// the error that its failure stands for.
#[derive(Debug)]
pub struct Conditionals(pub Vec<(bool, Error)>);

/// The error of the first condition that failed.
pub open spec fn first_failed(conditions: Seq<(bool, Error)>) -> Option<ErrorView>
    decreases conditions.len(),
{
    if conditions.len() == 0 {
        None
    } else if conditions[0].0 {
        Some(conditions[0].1@)
    } else {
        first_failed(conditions.skip(1))
    }
}

impl View for Conditionals {
    type V = Seq<(bool, Error)>;

    open spec fn view(&self) -> Seq<(bool, Error)> {
        self.0@
    }
}

impl Conditionals {
    /// No conditions.
    pub fn new() -> (c: Conditionals)
        ensures
            c@ == Seq::<(bool, Error)>::empty(),
    {
        Conditionals(Vec::new())
    }

    /// Adds a condition: whether it failed, and the error that stands for its
    /// failure.
    pub fn add(&mut self, failed: bool, err: Error)
        ensures
            final(self)@ == old(self)@.push((failed, err)),
    {
        self.0.push((failed, err))
    }

    /// Why the write was refused: the error of the first condition that
    /// failed, or an error that says that none is known to have.
    pub fn error(self) -> (e: Error)
        ensures
            e@ == match first_failed(self@) {
                Some(err) => err,
                None => ErrorView::Other("unknown conditional failure"@),
            },
    {
        let mut conditions = self.0;
        let ghost all = conditions@;
        proof {
            assert(all.skip(0) =~= all);
        }
        let mut found: Option<Error> = None;
        // taken from the back, so that each error can be moved out
        while conditions.len() > 0
            invariant
                conditions@ == all.take(conditions@.len() as int),
                conditions@.len() <= all.len(),
                match first_failed(all.skip(conditions@.len() as int)) {
                    Some(err) => found matches Some(e) && e@ == err,
                    None => found.is_none(),
                },
            decreases conditions@.len(),
        {
            let ghost len = conditions@.len() as int;
            let last = conditions.pop();
            proof {
                assert(all.skip(len - 1)[0] == all[len - 1]);
                assert(all.skip(len - 1).skip(1) =~= all.skip(len));
                assert(conditions@ =~= all.take(len - 1));
            }
            match last {
                Some((failed, err)) => {
                    if failed {
                        found = Some(err);
                    }
                },
                None => {},
            }
        }
        match found {
            Some(e) => e,
            None => Error::Other("unknown conditional failure".to_string()),
        }
    }
}

} // verus!
