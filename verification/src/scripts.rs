//! Finding scripts by name in a prioritized sequence of directories.

use vstd::prelude::*;
use vstd::string::*;

use crate::listing::{
    DirItem, DirListing, EntryModel, FailureKind, FailureModel, IoFailure, ItemModel,
    ListingModel,
};
use crate::names::{
    lemma_name_lt_total, lemma_name_lt_transitive, name_lt, same_name, sorts_before,
    strictly_ascending,
};

pub mod laws;

verus! {

/// What a search comes to: the path of the script, no script, or the
/// failure that ended it.
pub type Outcome = Result<Option<Seq<char>>, FailureModel>;

/// The search found the script at `path`.
pub open spec fn found(path: Seq<char>) -> Outcome {
    Ok(Some(path))
}

/// The search ended without a script and without a failure.
pub open spec fn nothing() -> Outcome {
    Ok(None)
}

/// The search was ended by `failure`.
pub open spec fn failed(failure: FailureModel) -> Outcome {
    Err(failure)
}

/// Whether a directory entry is the script called `name`: a regular file
/// whose file name is exactly `name`.
pub open spec fn is_script(entry: EntryModel, name: Seq<char>) -> bool {
    entry.is_file && entry.name == name
}

/// Scanning the items of one directory in order: the first failure aborts
/// the scan, the first script called `name` ends it with that script's path.
pub open spec fn scan(name: Seq<char>, items: Seq<ItemModel>) -> Outcome
    decreases items.len(),
{
    if items.len() == 0 {
        Ok(None)
    } else {
        match items[0] {
            ItemModel::Broken(failure) => Err(failure),
            ItemModel::Entry(entry) => if is_script(entry, name) {
                Ok(Some(entry.path))
            } else {
                scan(name, items.drop_first())
            },
        }
    }
}

/// Searching one directory: a directory that could not be opened fails with
/// the cause, an opened one is scanned.
pub open spec fn search(name: Seq<char>, listing: ListingModel) -> Outcome {
    match listing {
        ListingModel::Unreadable(failure) => Err(failure),
        ListingModel::Items(items) => scan(name, items),
    }
}

/// What one directory means for the search as a whole.
pub enum StepModel {
    Found(Seq<char>),
    Continue,
    Failed(FailureModel),
}

/// A directory that holds the script ends the search; one without it, or one
/// whose search failed with "not found", is passed over; any other failure
/// aborts the search.
pub open spec fn step(name: Seq<char>, listing: ListingModel) -> StepModel {
    match search(name, listing) {
        Ok(Some(path)) => StepModel::Found(path),
        Ok(None) => StepModel::Continue,
        Err(failure) => if failure.kind == FailureKind::NotFound {
            StepModel::Continue
        } else {
            StepModel::Failed(failure)
        },
    }
}

/// Searching directories from highest to lowest priority: the first
/// directory that does not let the search continue decides.
pub open spec fn find(name: Seq<char>, listings: Seq<ListingModel>) -> Outcome
    decreases listings.len(),
{
    if listings.len() == 0 {
        Ok(None)
    } else {
        match step(name, listings[0]) {
            StepModel::Found(path) => Ok(Some(path)),
            StepModel::Continue => find(name, listings.drop_first()),
            StepModel::Failed(failure) => Err(failure),
        }
    }
}

/// Mathematical model of a search result.
pub open spec fn outcome_view(outcome: Result<Option<String>, IoFailure>) -> Outcome {
    match outcome {
        Ok(path) => Ok(path.deep_view()),
        Err(failure) => Err(failure.deep_view()),
    }
}

/// What the search does after one directory.
#[derive(Debug, PartialEq, Eq)]
pub enum SearchStep {
    /// The script was found at this path; the search is over.
    Found(String),
    /// This directory does not decide; go on with the next one.
    Continue,
    /// The search is over and failed.
    Failed(IoFailure),
}

impl DeepView for SearchStep {
    type V = StepModel;

    open spec fn deep_view(&self) -> StepModel {
        match self {
            SearchStep::Found(path) => StepModel::Found(path@),
            SearchStep::Continue => StepModel::Continue,
            SearchStep::Failed(failure) => StepModel::Failed(failure.deep_view()),
        }
    }
}

/// Search file by name in the listing of one directory: the path of the
/// first regular file whose name is exactly `name`, unless the directory
/// could not be opened or an item before that file is broken.
pub fn search_dir(name: &str, listing: &DirListing) -> (outcome: Result<Option<String>, IoFailure>)
    ensures
        outcome_view(outcome) == search(name@, listing.deep_view()),
{
    match listing {
        DirListing::Unreadable(failure) => Err(failure.clone()),
        DirListing::Items(items) => {
            let ghost all = items.deep_view();
            let mut i: usize = 0;
            proof {
                assert(all.skip(0) =~= all);
            }
            while i < items.len()
                invariant
                    i <= items.len(),
                    all == items.deep_view(),
                    listing.deep_view() == ListingModel::Items(all),
                    scan(name@, all) == scan(name@, all.skip(i as int)),
                decreases items.len() - i,
            {
                proof {
                    assert(all.skip(i as int).drop_first() =~= all.skip(i + 1));
                    assert(all.skip(i as int)[0] == items@[i as int].deep_view());
                }
                match &items[i] {
                    DirItem::Broken(failure) => {
                        return Err(failure.clone());
                    },
                    DirItem::Entry(entry) => {
                        if entry.is_file && same_name(entry.name.as_str(), name) {
                            return Ok(Some(entry.path.clone()));
                        }
                    },
                }
                i += 1;
            }
            Ok(None)
        },
    }
}

/// Decide, from the listing of one directory, whether the search for `name`
/// is over or goes on with the next directory.
pub fn search_step(name: &str, listing: &DirListing) -> (next: SearchStep)
    ensures
        next.deep_view() == step(name@, listing.deep_view()),
{
    match search_dir(name, listing) {
        Ok(Some(path)) => SearchStep::Found(path),
        Ok(None) => SearchStep::Continue,
        Err(failure) => {
            if failure.is_not_found() {
                SearchStep::Continue
            } else {
                SearchStep::Failed(failure)
            }
        },
    }
}

/// Search for a script file in the listings of the configured directories,
/// given from highest to lowest priority, and return its path if found.
///
/// The first directory that holds a regular file of exactly that name
/// wins; lower directories are not looked at. A directory that does not
/// exist is passed over; any other failure ends the search.
///
/// A name is compared with file names only, never taken as a path: one
/// that contains a path separator is not rejected, but since no file name
/// contains one, it is never found.
pub fn find_script(name: &str, listings: &Vec<DirListing>) -> (outcome: Result<
    Option<String>,
    IoFailure,
>)
    ensures
        outcome_view(outcome) == find(name@, listings.deep_view()),
{
    let ghost all = listings.deep_view();
    let mut i: usize = 0;
    proof {
        assert(all.skip(0) =~= all);
    }
    while i < listings.len()
        invariant
            i <= listings.len(),
            all == listings.deep_view(),
            find(name@, all) == find(name@, all.skip(i as int)),
        decreases listings.len() - i,
    {
        proof {
            assert(all.skip(i as int).drop_first() =~= all.skip(i + 1));
            assert(all.skip(i as int)[0] == listings@[i as int].deep_view());
        }
        match search_step(name, &listings[i]) {
            SearchStep::Found(path) => {
                return Ok(Some(path));
            },
            SearchStep::Continue => {},
            SearchStep::Failed(failure) => {
                return Err(failure);
            },
        }
        i += 1;
    }
    Ok(None)
}

/// Returns whether a certain script exists. Returns `false` when the search
/// fails.
///
/// If you want to get error information in case of an error,
/// use [`find_script()`] instead.
pub fn script_exists(name: &str, listings: &Vec<DirListing>) -> (exists: bool)
    ensures
        exists == (find(name@, listings.deep_view()) matches Ok(Some(_))),
{
    match find_script(name, listings) {
        Ok(Some(_)) => true,
        _ => false,
    }
}

/// The failure met first when every item of a directory is looked at.
pub open spec fn first_broken(items: Seq<ItemModel>) -> Option<FailureModel>
    decreases items.len(),
{
    if items.len() == 0 {
        None
    } else {
        match items[0] {
            ItemModel::Broken(failure) => Some(failure),
            ItemModel::Entry(_) => first_broken(items.drop_first()),
        }
    }
}

/// The failure that stops the collection of names in one directory, if any.
/// A directory that does not exist counts as empty.
pub open spec fn listing_failure(listing: ListingModel) -> Option<FailureModel> {
    match listing {
        ListingModel::Unreadable(failure) => if failure.kind == FailureKind::NotFound {
            None
        } else {
            Some(failure)
        },
        ListingModel::Items(items) => first_broken(items),
    }
}

/// The failure that stops the collection of names, if any: the first one
/// met when the directories are read in order.
pub open spec fn first_failure(listings: Seq<ListingModel>) -> Option<FailureModel>
    decreases listings.len(),
{
    if listings.len() == 0 {
        None
    } else {
        match listing_failure(listings[0]) {
            Some(failure) => Some(failure),
            None => first_failure(listings.drop_first()),
        }
    }
}

/// Some item is a script called `name`.
pub open spec fn holds(items: Seq<ItemModel>, name: Seq<char>) -> bool {
    exists|i: int|
        0 <= i < items.len() && (#[trigger] items[i] matches ItemModel::Entry(entry) && is_script(
            entry,
            name,
        ))
}

/// The directory was opened and holds a script called `name`.
pub open spec fn lists(listing: ListingModel, name: Seq<char>) -> bool {
    listing matches ListingModel::Items(items) && holds(items, name)
}

/// Some directory holds a script called `name`.
pub open spec fn available(listings: Seq<ListingModel>, name: Seq<char>) -> bool {
    exists|d: int| 0 <= d < listings.len() && lists(#[trigger] listings[d], name)
}

/// `names` is the catalog of the listed directories: exactly the names of
/// the scripts that some directory holds, each once, in ascending order.
pub open spec fn is_catalog(names: Seq<Seq<char>>, listings: Seq<ListingModel>) -> bool {
    &&& strictly_ascending(names)
    &&& forall|n: Seq<char>| #[trigger] names.contains(n) <==> available(listings, n)
}

proof fn lemma_holds_one_more(items: Seq<ItemModel>, i: int, name: Seq<char>)
    requires
        0 <= i < items.len(),
    ensures
        holds(items.take(i + 1), name) <==> holds(items.take(i), name) || (items[i] matches ItemModel::Entry(
            entry,
        ) && is_script(entry, name)),
{
    let shorter = items.take(i);
    let longer = items.take(i + 1);
    if holds(shorter, name) {
        let k = choose|k: int|
            0 <= k < shorter.len() && (#[trigger] shorter[k] matches ItemModel::Entry(entry) && is_script(
                entry,
                name,
            ));
        assert(longer[k] == shorter[k]);
    }
    if items[i] matches ItemModel::Entry(entry) && is_script(entry, name) {
        assert(longer[i] == items[i]);
    }
    if holds(longer, name) {
        let k = choose|k: int|
            0 <= k < longer.len() && (#[trigger] longer[k] matches ItemModel::Entry(entry) && is_script(
                entry,
                name,
            ));
        if k < i {
            assert(shorter[k] == longer[k]);
        } else {
            assert(longer[k] == items[i]);
        }
    }
}

proof fn lemma_available_one_more(listings: Seq<ListingModel>, d: int, name: Seq<char>)
    requires
        0 <= d < listings.len(),
    ensures
        available(listings.take(d + 1), name) <==> available(listings.take(d), name) || lists(
            listings[d],
            name,
        ),
{
    let shorter = listings.take(d);
    let longer = listings.take(d + 1);
    if available(shorter, name) {
        let k = choose|k: int| 0 <= k < shorter.len() && lists(#[trigger] shorter[k], name);
        assert(longer[k] == shorter[k]);
    }
    if lists(listings[d], name) {
        assert(longer[d] == listings[d]);
    }
    if available(longer, name) {
        let k = choose|k: int| 0 <= k < longer.len() && lists(#[trigger] longer[k], name);
        if k < d {
            assert(shorter[k] == longer[k]);
        } else {
            assert(longer[k] == listings[d]);
        }
    }
}

/// Put `name` at its place in the sorted list unless it is there already.
fn insert_name(names: &mut Vec<String>, name: String)
    requires
        strictly_ascending(old(names).deep_view()),
    ensures
        strictly_ascending(final(names).deep_view()),
        forall|n: Seq<char>|
            #[trigger] final(names).deep_view().contains(n) <==> old(names).deep_view().contains(n)
                || n == name@,
{
    let ghost before = names.deep_view();
    let mut at: usize = 0;
    let mut searching = true;
    while searching && at < names.len()
        invariant
            at <= names.len(),
            names.deep_view() == before,
            forall|k: int| 0 <= k < at ==> name_lt(#[trigger] before[k], name@),
            !searching ==> at < names.len() && !name_lt(before[at as int], name@),
        decreases names.len() - at + if searching { 1int } else { 0int },
    {
        if sorts_before(names[at].as_str(), name.as_str()) {
            at += 1;
        } else {
            searching = false;
        }
    }
    if at < names.len() && same_name(names[at].as_str(), name.as_str()) {
        assert(before[at as int] == name@);
        assert forall|n: Seq<char>| before.contains(n) || n == name@ implies before.contains(n) by {}
        return;
    }
    proof {
        if at < names.len() {
            lemma_name_lt_total(before[at as int], name@);
        }
        assert forall|k: int| at <= k < before.len() implies name_lt(name@, #[trigger] before[k]) by {
            if k > at {
                lemma_name_lt_transitive(name@, before[at as int], before[k]);
            }
        }
    }
    names.insert(at, name);
    proof {
        let after = names.deep_view();
        assert(after =~= before.insert(at as int, name@));
        assert forall|i: int, j: int| 0 <= i < j < after.len() implies name_lt(after[i], after[j]) by {
            if i < at < j {
                lemma_name_lt_transitive(after[i], name@, after[j]);
            }
        }
        assert forall|n: Seq<char>| after.contains(n) <==> before.contains(n) || n == name@ by {
            if after.contains(n) {
                let k = choose|k: int| 0 <= k < after.len() && after[k] == n;
                if k < at {
                    assert(before[k] == n);
                } else if k > at {
                    assert(before[k - 1] == n);
                }
            }
            if before.contains(n) {
                let k = choose|k: int| 0 <= k < before.len() && before[k] == n;
                if k < at {
                    assert(after[k] == n);
                } else {
                    assert(after[k + 1] == n);
                }
            }
            if n == name@ {
                assert(after[at as int] == n);
            }
        }
    }
}

/// Add the names of the regular files of one directory to the sorted list.
fn collect_names(listing: &DirListing, names: &mut Vec<String>) -> (outcome: Result<(), IoFailure>)
    requires
        strictly_ascending(old(names).deep_view()),
    ensures
        strictly_ascending(final(names).deep_view()),
        match listing_failure(listing.deep_view()) {
            Some(failure) => outcome matches Err(e) && e.deep_view() == failure,
            None => outcome is Ok && forall|n: Seq<char>|
                #[trigger] final(names).deep_view().contains(n) <==> old(names).deep_view().contains(
                    n,
                ) || lists(listing.deep_view(), n),
        },
{
    match listing {
        DirListing::Unreadable(failure) => {
            if failure.is_not_found() {
                Ok(())
            } else {
                Err(failure.clone())
            }
        },
        DirListing::Items(items) => {
            let ghost all = items.deep_view();
            let ghost before = names.deep_view();
            let mut i: usize = 0;
            proof {
                assert(all.skip(0) =~= all);
            }
            while i < items.len()
                invariant
                    i <= items.len(),
                    all == items.deep_view(),
                    listing.deep_view() == ListingModel::Items(all),
                    first_broken(all) == first_broken(all.skip(i as int)),
                    strictly_ascending(names.deep_view()),
                    forall|n: Seq<char>|
                        #[trigger] names.deep_view().contains(n) <==> before.contains(n) || holds(
                            all.take(i as int),
                            n,
                        ),
                decreases items.len() - i,
            {
                proof {
                    assert(all.skip(i as int).drop_first() =~= all.skip(i + 1));
                    assert(all.skip(i as int)[0] == items@[i as int].deep_view());
                    assert(all[i as int] == items@[i as int].deep_view());
                }
                let ghost so_far = names.deep_view();
                match &items[i] {
                    DirItem::Broken(failure) => {
                        return Err(failure.clone());
                    },
                    DirItem::Entry(entry) => {
                        if entry.is_file {
                            insert_name(names, entry.name.clone());
                        }
                    },
                }
                proof {
                    assert forall|n: Seq<char>|
                        #[trigger] names.deep_view().contains(n) <==> before.contains(n) || holds(
                            all.take(i + 1),
                            n,
                        ) by {
                        lemma_holds_one_more(all, i as int, n);
                        assert(so_far.contains(n) <==> before.contains(n) || holds(
                            all.take(i as int),
                            n,
                        ));
                    }
                }
                i += 1;
            }
            proof {
                assert(all.take(i as int) =~= all);
            }
            Ok(())
        },
    }
}

/// Get the names of all available scripts: the names of the regular files
/// in the listed directories, each name once, in ascending order.
///
/// Note: the returned values are script *names* not paths.
pub fn all_scripts(listings: &Vec<DirListing>) -> (outcome: Result<Vec<String>, IoFailure>)
    ensures
        match first_failure(listings.deep_view()) {
            Some(failure) => outcome matches Err(e) && e.deep_view() == failure,
            None => outcome matches Ok(names) && is_catalog(
                names.deep_view(),
                listings.deep_view(),
            ),
        },
{
    let ghost all = listings.deep_view();
    let mut names: Vec<String> = Vec::new();
    let mut d: usize = 0;
    proof {
        assert(all.skip(0) =~= all);
    }
    while d < listings.len()
        invariant
            d <= listings.len(),
            all == listings.deep_view(),
            first_failure(all) == first_failure(all.skip(d as int)),
            strictly_ascending(names.deep_view()),
            forall|n: Seq<char>|
                #[trigger] names.deep_view().contains(n) <==> available(all.take(d as int), n),
        decreases listings.len() - d,
    {
        proof {
            assert(all.skip(d as int).drop_first() =~= all.skip(d + 1));
            assert(all.skip(d as int)[0] == listings@[d as int].deep_view());
            assert(all[d as int] == listings@[d as int].deep_view());
        }
        let ghost so_far = names.deep_view();
        match collect_names(&listings[d], &mut names) {
            Ok(()) => {},
            Err(failure) => {
                return Err(failure);
            },
        }
        proof {
            assert forall|n: Seq<char>|
                #[trigger] names.deep_view().contains(n) <==> available(all.take(d + 1), n) by {
                lemma_available_one_more(all, d as int, n);
                assert(so_far.contains(n) <==> available(all.take(d as int), n));
            }
        }
        d += 1;
    }
    proof {
        assert(all.take(d as int) =~= all);
    }
    Ok(names)
}

} // verus!
