//! What holds of every search, whatever the directories hold.

use vstd::prelude::*;

use crate::listing::{FailureKind, ItemModel, ListingModel};
use crate::names::{lemma_ascending_is_duplicate_free, lemma_same_members_same_sequence};
use crate::scripts::{
    available, failed, find, first_broken, first_failure, found, holds, is_catalog, is_script,
    lists, nothing, scan, step,
};

verus! {

/// The script is the item at position `at`, and the scan reaches it: every
/// item before it is an entry, and none of them is the script.
pub open spec fn reaches(items: Seq<ItemModel>, name: Seq<char>, at: int) -> bool {
    &&& 0 <= at < items.len()
    &&& items[at] matches ItemModel::Entry(entry) && is_script(entry, name)
    &&& forall|i: int|
        0 <= i < at ==> (#[trigger] items[i] matches ItemModel::Entry(entry) && !is_script(
            entry,
            name,
        ))
}

/// The directory was opened, and its script called `name` is the item at
/// position `at`, which the scan reaches.
pub open spec fn offers(listing: ListingModel, name: Seq<char>, at: int) -> bool {
    listing matches ListingModel::Items(items) && reaches(items, name, at)
}

/// The path under which a directory offers its item at position `at`.
pub open spec fn offered_path(listing: ListingModel, at: int) -> Seq<char>
    recommends
        listing matches ListingModel::Items(items) && 0 <= at < items.len() && items[at] is Entry,
{
    listing->Items_0[at]->Entry_0.path
}

/// A scan that reaches the script returns its path.
pub proof fn lemma_scan_returns_reached_script(items: Seq<ItemModel>, name: Seq<char>, at: int)
    requires
        reaches(items, name, at),
    ensures
        scan(name, items) == found(items[at]->Entry_0.path),
    decreases items.len(),
{
    if at > 0 {
        let rest = items.drop_first();
        assert(items[0] is Entry);
        assert forall|i: int| 0 <= i < at - 1 implies (#[trigger] rest[i] matches ItemModel::Entry(
            entry,
        ) && !is_script(entry, name)) by {
            assert(rest[i] == items[i + 1]);
        }
        assert(rest[at - 1] == items[at]);
        lemma_scan_returns_reached_script(rest, name, at - 1);
    }
}

/// A directory that was opened and holds no script called `name` either
/// yields nothing or fails on a broken item.
pub proof fn lemma_scan_without_script(items: Seq<ItemModel>, name: Seq<char>)
    requires
        !holds(items, name),
    ensures
        match first_broken(items) {
            Some(failure) => scan(name, items) == failed(failure),
            None => scan(name, items) == nothing(),
        },
    decreases items.len(),
{
    if items.len() > 0 {
        let rest = items.drop_first();
        assert(items[0] matches ItemModel::Entry(entry) ==> !is_script(entry, name));
        assert(!holds(rest, name)) by {
            if holds(rest, name) {
                let i = choose|i: int|
                    0 <= i < rest.len() && (#[trigger] rest[i] matches ItemModel::Entry(entry)
                        && is_script(entry, name));
                assert(items[i + 1] == rest[i]);
            }
        }
        lemma_scan_without_script(rest, name);
    }
}

/// The script is found in the first directory that offers it: if directory
/// `d` offers a script called `name`, no directory before it holds one, and
/// the search of none of them fails, the search returns the path that
/// directory `d` offers.
pub proof fn lemma_first_offer_is_found(
    listings: Seq<ListingModel>,
    name: Seq<char>,
    d: int,
    at: int,
)
    requires
        0 <= d < listings.len(),
        offers(listings[d], name, at),
        forall|k: int| 0 <= k < d ==> !lists(#[trigger] listings[k], name),
        forall|k: int| 0 <= k < d ==> !(step(name, #[trigger] listings[k]) is Failed),
    ensures
        find(name, listings) == found(offered_path(listings[d], at)),
    decreases d,
{
    if d == 0 {
        lemma_scan_returns_reached_script(listings[0]->Items_0, name, at);
    } else {
        let rest = listings.drop_first();
        assert(!lists(listings[0], name));
        assert(!(step(name, listings[0]) is Failed));
        assert(step(name, listings[0]) is Continue) by {
            if listings[0] is Items {
                lemma_scan_without_script(listings[0]->Items_0, name);
            }
        }
        assert forall|k: int| 0 <= k < d - 1 implies !lists(#[trigger] rest[k], name) by {
            assert(rest[k] == listings[k + 1]);
        }
        assert forall|k: int| 0 <= k < d - 1 implies !(step(name, #[trigger] rest[k]) is Failed) by {
            assert(rest[k] == listings[k + 1]);
        }
        assert(rest[d - 1] == listings[d]);
        lemma_first_offer_is_found(rest, name, d - 1, at);
    }
}

/// Where two directories offer a script of the same name, the search
/// returns the one of higher priority, whatever the other offers.
pub proof fn lemma_higher_priority_wins(
    listings: Seq<ListingModel>,
    name: Seq<char>,
    high: int,
    high_at: int,
    low: int,
    low_at: int,
)
    requires
        0 <= high < low < listings.len(),
        offers(listings[high], name, high_at),
        offers(listings[low], name, low_at),
        forall|k: int| 0 <= k < high ==> !lists(#[trigger] listings[k], name),
        forall|k: int| 0 <= k < high ==> !(step(name, #[trigger] listings[k]) is Failed),
    ensures
        find(name, listings) == found(offered_path(listings[high], high_at)),
{
    lemma_first_offer_is_found(listings, name, high, high_at);
}

/// Every listed directory is missing.
pub open spec fn all_missing(listings: Seq<ListingModel>) -> bool {
    forall|d: int|
        0 <= d < listings.len() ==> (#[trigger] listings[d] matches ListingModel::Unreadable(
            failure,
        ) && failure.kind == FailureKind::NotFound)
}

/// Directories that do not exist are passed over: where every directory is
/// missing, no script is found, no name is available, and neither the
/// search nor the collection of names fails.
pub proof fn lemma_missing_directories_are_skipped(
    listings: Seq<ListingModel>,
    name: Seq<char>,
    names: Seq<Seq<char>>,
)
    requires
        all_missing(listings),
        is_catalog(names, listings),
    ensures
        find(name, listings) == nothing(),
        first_failure(listings) is None,
        names.len() == 0,
    decreases listings.len(),
{
    lemma_missing_find(listings, name);
    lemma_missing_failure(listings);
    if names.len() > 0 {
        assert(names.contains(names[0]));
        assert(available(listings, names[0]));
    }
}

proof fn lemma_missing_find(listings: Seq<ListingModel>, name: Seq<char>)
    requires
        all_missing(listings),
    ensures
        find(name, listings) == nothing(),
    decreases listings.len(),
{
    if listings.len() > 0 {
        let rest = listings.drop_first();
        assert(listings[0] is Unreadable);
        assert forall|d: int| 0 <= d < rest.len() implies (#[trigger] rest[d] matches ListingModel::Unreadable(
            failure,
        ) && failure.kind == FailureKind::NotFound) by {
            assert(rest[d] == listings[d + 1]);
        }
        lemma_missing_find(rest, name);
    }
}

proof fn lemma_missing_failure(listings: Seq<ListingModel>)
    requires
        all_missing(listings),
    ensures
        first_failure(listings) is None,
    decreases listings.len(),
{
    if listings.len() > 0 {
        let rest = listings.drop_first();
        assert(listings[0] is Unreadable);
        assert forall|d: int| 0 <= d < rest.len() implies (#[trigger] rest[d] matches ListingModel::Unreadable(
            failure,
        ) && failure.kind == FailureKind::NotFound) by {
            assert(rest[d] == listings[d + 1]);
        }
        lemma_missing_failure(rest);
    }
}

/// A scan only returns what it reached: the path it returns is that of a
/// script called `name` which the scan reaches.
pub proof fn lemma_scan_result_is_reached(items: Seq<ItemModel>, name: Seq<char>, path: Seq<char>)
    requires
        scan(name, items) == found(path),
    ensures
        exists|at: int| reaches(items, name, at) && #[trigger] items[at]->Entry_0.path == path,
    decreases items.len(),
{
    if items.len() > 0 {
        let rest = items.drop_first();
        if items[0] matches ItemModel::Entry(entry) && is_script(entry, name) {
            assert(reaches(items, name, 0) && items[0]->Entry_0.path == path);
        } else {
            lemma_scan_result_is_reached(rest, name, path);
            let at = choose|at: int| reaches(rest, name, at) && #[trigger] rest[at]->Entry_0.path == path;
            assert(rest[at] == items[at + 1]);
            assert forall|i: int| 0 <= i < at + 1 implies (#[trigger] items[i] matches ItemModel::Entry(
                entry,
            ) && !is_script(entry, name)) by {
                if i > 0 {
                    assert(items[i] == rest[i - 1]);
                }
            }
            assert(reaches(items, name, at + 1) && items[at + 1]->Entry_0.path == path);
        }
    }
}

/// The search makes nothing up: a path it returns is offered by a
/// directory, and every directory before that one was passed over.
pub proof fn lemma_found_is_offered(listings: Seq<ListingModel>, name: Seq<char>, path: Seq<char>)
    requires
        find(name, listings) == found(path),
    ensures
        exists|d: int, at: int|
            0 <= d < listings.len() && #[trigger] offers(listings[d], name, at) && offered_path(
                listings[d],
                at,
            ) == path && forall|k: int| 0 <= k < d ==> step(name, #[trigger] listings[k]) is Continue,
    decreases listings.len(),
{
    if listings.len() > 0 {
        let rest = listings.drop_first();
        if step(name, listings[0]) is Found {
            let items = listings[0]->Items_0;
            lemma_scan_result_is_reached(items, name, path);
            let at = choose|at: int| reaches(items, name, at) && #[trigger] items[at]->Entry_0.path == path;
            assert(offers(listings[0], name, at) && offered_path(listings[0], at) == path);
        } else {
            lemma_found_is_offered(rest, name, path);
            let (d, at) = choose|d: int, at: int|
                0 <= d < rest.len() && #[trigger] offers(rest[d], name, at) && offered_path(rest[d], at)
                    == path && forall|k: int| 0 <= k < d ==> step(name, #[trigger] rest[k]) is Continue;
            assert(rest[d] == listings[d + 1]);
            assert forall|k: int| 0 <= k < d + 1 implies step(name, #[trigger] listings[k]) is Continue by {
                if k > 0 {
                    assert(listings[k] == rest[k - 1]);
                }
            }
            assert(offers(listings[d + 1], name, at) && offered_path(listings[d + 1], at) == path);
        }
    }
}

/// Where no directory holds a script called `name` and the search of none
/// fails, the search finds nothing.
pub proof fn lemma_unlisted_is_not_found(listings: Seq<ListingModel>, name: Seq<char>)
    requires
        forall|d: int| 0 <= d < listings.len() ==> !lists(#[trigger] listings[d], name),
        forall|d: int| 0 <= d < listings.len() ==> !(step(name, #[trigger] listings[d]) is Failed),
    ensures
        find(name, listings) == nothing(),
    decreases listings.len(),
{
    if listings.len() > 0 {
        let rest = listings.drop_first();
        assert(!lists(listings[0], name));
        assert(!(step(name, listings[0]) is Failed));
        assert(step(name, listings[0]) is Continue) by {
            if listings[0] is Items {
                lemma_scan_without_script(listings[0]->Items_0, name);
            }
        }
        assert forall|d: int| 0 <= d < rest.len() implies !lists(#[trigger] rest[d], name) by {
            assert(rest[d] == listings[d + 1]);
        }
        assert forall|d: int| 0 <= d < rest.len() implies !(step(name, #[trigger] rest[d]) is Failed) by {
            assert(rest[d] == listings[d + 1]);
        }
        lemma_unlisted_is_not_found(rest, name);
    }
}

/// A catalog holds no name twice.
pub proof fn lemma_catalog_has_no_duplicates(names: Seq<Seq<char>>, listings: Seq<ListingModel>)
    requires
        is_catalog(names, listings),
    ensures
        names.no_duplicates(),
{
    lemma_ascending_is_duplicate_free(names);
}

/// The directories have one catalog only: what is listed, each name once
/// and in ascending order, leaves no choice.
pub proof fn lemma_catalog_is_unique(
    first: Seq<Seq<char>>,
    second: Seq<Seq<char>>,
    listings: Seq<ListingModel>,
)
    requires
        is_catalog(first, listings),
        is_catalog(second, listings),
    ensures
        first == second,
{
    assert forall|n: Seq<char>| first.contains(n) <==> second.contains(n) by {}
    lemma_same_members_same_sequence(first, second);
}

/// Searching one list of directories after another is searching the first
/// list and, only where that finds nothing, the second. So once a search
/// is decided, no directory of lower priority changes its outcome, and
/// none needs to be read.
pub proof fn lemma_find_in_sequence(
    higher: Seq<ListingModel>,
    lower: Seq<ListingModel>,
    name: Seq<char>,
)
    ensures
        find(name, higher + lower) == if find(name, higher) == nothing() {
            find(name, lower)
        } else {
            find(name, higher)
        },
    decreases higher.len(),
{
    if higher.len() == 0 {
        assert(higher + lower =~= lower);
    } else {
        assert((higher + lower)[0] == higher[0]);
        assert((higher + lower).drop_first() =~= higher.drop_first() + lower);
        lemma_find_in_sequence(higher.drop_first(), lower, name);
    }
}

/// The tiers are searched in the order repository, user, system: the
/// search over all three is decided by the first tier whose own search
/// finds the script or fails.
pub proof fn lemma_tiers_are_searched_in_order(
    repository: Seq<ListingModel>,
    user: Seq<ListingModel>,
    system: Seq<ListingModel>,
    name: Seq<char>,
)
    ensures
        find(name, repository + user + system) == if find(name, repository) != nothing() {
            find(name, repository)
        } else if find(name, user) != nothing() {
            find(name, user)
        } else {
            find(name, system)
        },
{
    lemma_find_in_sequence(repository, user, name);
    lemma_find_in_sequence(repository + user, system, name);
}

/// No entry of the listed directories has a path separator in its name, as
/// is the case for every directory that was really read.
pub open spec fn plain_names(listings: Seq<ListingModel>) -> bool {
    forall|d: int, i: int|
        0 <= d < listings.len() && listings[d] is Items && 0 <= i < listings[d]->Items_0.len()
            && (#[trigger] listings[d]->Items_0[i]) is Entry ==> !listings[d]->Items_0[i]->Entry_0.name.contains(
            '/',
        )
}

/// A name is never taken as a path: one that contains a path separator is
/// not found, whatever the directories hold.
pub proof fn lemma_path_is_never_found(listings: Seq<ListingModel>, name: Seq<char>)
    requires
        plain_names(listings),
        name.contains('/'),
    ensures
        !(find(name, listings) matches Ok(Some(_))),
{
    if find(name, listings) matches Ok(Some(_)) {
        let found_at = find(name, listings)->Ok_0->Some_0;
        lemma_found_is_offered(listings, name, found_at);
        let (d, at) = choose|d: int, at: int|
            0 <= d < listings.len() && #[trigger] offers(listings[d], name, at) && offered_path(
                listings[d],
                at,
            ) == found_at && forall|k: int|
                0 <= k < d ==> step(name, #[trigger] listings[k]) is Continue;
        assert(listings[d]->Items_0[at] is Entry);
        assert(listings[d]->Items_0[at]->Entry_0.name == name);
    }
}

} // verus!
