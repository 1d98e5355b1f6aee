//! The command that retrieves a secret: which record a query stands for,
//! and whether the user has to choose.

use vstd::prelude::*;
use crate::commands::Arguments;
use crate::password::credential::{fold_case, lowercase_of, views_of, Credential, CredentialView};
use crate::password::v2::{matching, PasswordStore};
use crate::text::same_text;

verus! {

/// The exit code of a command that was given too few arguments.
pub const USAGE_EXIT_CODE: i32 = 1;

/// What the command does next.
pub enum Retrieval<'a> {
    /// No record matches the query.
    NothingFound,
    /// The secret of this record is shown, or copied to the clipboard.
    Deliver { record: &'a Credential, show: bool },
    /// Records match and none has the query as its name: the user picks
    /// one of them by its number, counted from 1.
    Choose { candidates: Vec<&'a Credential>, show: bool },
}

/// What the command does next, as a mathematical value.
pub enum RetrievalView {
    NothingFound,
    Deliver { record: CredentialView, show: bool },
    Choose { candidates: Seq<CredentialView>, show: bool },
}

impl<'a> View for Retrieval<'a> {
    type V = RetrievalView;

    open spec fn view(&self) -> RetrievalView {
        match *self {
            Retrieval::NothingFound => RetrievalView::NothingFound,
            Retrieval::Deliver { record, show } => RetrievalView::Deliver { record: record@, show },
            Retrieval::Choose { candidates, show } => RetrievalView::Choose {
                candidates: views_of(candidates@),
                show,
            },
        }
    }
}

/// Where the first record with the key `key` stands among `found`, or the
/// length of `found` if there is none.
pub open spec fn first_with_key(found: Seq<CredentialView>, key: Seq<char>) -> int
    decreases found.len(),
{
    if found.len() == 0 {
        0
    } else if found[0].key() == key {
        0
    } else {
        1 + first_with_key(found.drop_first(), key)
    }
}

/// What is done with the records `found` that match a query whose lowercase
/// form is `key`.
pub open spec fn retrieval_for(found: Seq<CredentialView>, key: Seq<char>, show: bool)
    -> RetrievalView {
    if found.len() == 0 {
        RetrievalView::NothingFound
    } else if first_with_key(found, key) < found.len() {
        RetrievalView::Deliver { record: found[first_with_key(found, key)], show }
    } else {
        RetrievalView::Choose { candidates: found, show }
    }
}

/// The command needs the name of an application after its own name.
pub fn check_args(matches: &Arguments) -> (result: Result<(), i32>)
    ensures
        result is Ok <==> matches.free@.len() >= 2,
        result matches Err(code) ==> code == USAGE_EXIT_CODE,
{
    if matches.free.len() < 2 {
        return Err(USAGE_EXIT_CODE);
    }
    Ok(())
}

/// Decides between the records `found`, which matched a query whose
/// lowercase form is `key`: the first whose name is the query without
/// regard to case is delivered at once; without such a record the user
/// chooses.
pub fn settle<'a>(found: Vec<&'a Credential>, key: &Vec<char>, show: bool) -> (step: Retrieval<'a>)
    ensures
        step@ == retrieval_for(views_of(found@), key@, show),
{
    if found.len() == 0 {
        return Retrieval::NothingFound;
    }
    let ghost all = views_of(found@);
    let mut i: usize = 0;
    assert(all.skip(0) =~= all);
    while i < found.len()
        invariant
            i <= found@.len(),
            all == views_of(found@),
            first_with_key(all, key@) == i + first_with_key(all.skip(i as int), key@),
        decreases found@.len() - i,
    {
        assert(all.skip(i as int).drop_first() =~= all.skip(i as int + 1));
        if same_text(found[i].key(), key) {
            return Retrieval::Deliver { record: found[i], show };
        }
        i += 1;
    }
    Retrieval::Choose { candidates: found, show }
}

/// Runs the command as far as it goes without asking the user: the second
/// free argument is the query, and the records that match it by
/// [`crate::password::v2::fuzzy_match`] are settled as [`settle`] says.
/// Fails with [`USAGE_EXIT_CODE`] if the query is missing.
pub fn callback_exec<'a>(matches: &Arguments, store: &'a PasswordStore) -> (result: Result<
    Retrieval<'a>,
    i32,
>)
    ensures
        result is Ok <==> matches.free@.len() >= 2,
        result matches Err(code) ==> code == USAGE_EXIT_CODE,
        result matches Ok(step) ==> step@ == retrieval_for(
            matching(store@.records, lowercase_of(matches.free@[1]@)),
            lowercase_of(matches.free@[1]@),
            matches.show,
        ),
{
    match check_args(matches) {
        Err(code) => {
            return Err(code);
        },
        Ok(()) => {},
    }
    let key = fold_case(matches.free[1].as_str());
    let found = store.search_by_key(&key);
    Ok(settle(found, &key, matches.show))
}

/// The candidate with the number `number`, counted from 1.
pub fn pick<'a>(candidates: &Vec<&'a Credential>, number: usize) -> (record: Option<
    &'a Credential,
>)
    ensures
        record is Some <==> 1 <= number <= candidates@.len(),
        record matches Some(r) ==> r == candidates@[number - 1],
{
    if 1 <= number && number <= candidates.len() {
        Some(candidates[number - 1])
    } else {
        None
    }
}

} // verus!
