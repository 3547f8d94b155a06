//! The resolver: which release of a catalog is the newest one that carries
//! the wanted asset, and whether it is newer than the version in use.

use vstd::prelude::*;

use reqwest::Url;
use std::cmp::Ordering;

use crate::model::{catalog_view, Error, ReleaseView, StaticFileAsset, StaticFileRelease};
use crate::rank::Rank;
use crate::strategy::{answers_all, rank_versions, ranks_by, RankRule};

verus! {

/// `reqwest::Url`, a parsed URL. What it holds is not visible to contracts.
#[verifier::external_type_specification]
#[verifier::external_body]
pub struct ExUrl(Url);

/// A URL is written as `text` where `text` is what displaying it gives.
pub open spec fn written_as(url: Url, text: Seq<char>) -> bool {
    exists|shown: String| #[trigger]
        vstd::string::to_string_from_display_ensures::<Url>(&url, shown) && shown@ == text
}

/// The name of the catalog below the location that a resolver was made for.
pub const CATALOG_FILE: &'static str = "/releases.json";

/// The user agent that a request for the catalog names.
pub const USER_AGENT: &'static str = "rust-reqwest/updater";

/// What a request for an asset is answered with: assets are not fetched.
pub const DOWNLOAD_UNSUPPORTED: &'static str = "downloading an asset is not supported";

/// A release carries an asset name where one of its assets has exactly
/// that name.
pub open spec fn carries(release: ReleaseView, name: Seq<char>) -> bool {
    exists|i: int| 0 <= i < release.assets.len() && (#[trigger] release.assets[i]).name == name
}

/// A release passes where no asset is wanted, or where it carries the
/// wanted one.
pub open spec fn accepts(wanted: Option<Seq<char>>, release: ReleaseView) -> bool {
    match wanted {
        Some(name) => carries(release, name),
        None => true,
    }
}

/// The releases of a catalog that pass, in the catalog's order.
pub open spec fn matching(wanted: Option<Seq<char>>, catalog: Seq<ReleaseView>) -> Seq<
    ReleaseView,
> {
    catalog.filter(|r: ReleaseView| accepts(wanted, r))
}

/// The place of the latest release among `releases`: going through them in
/// order, a release takes the lead unless it ranks below the one that leads.
/// So of several that rank equal the last one leads.
pub open spec fn latest_index(releases: Seq<ReleaseView>, rule: RankRule) -> int
    decreases releases.len(),
{
    if releases.len() <= 1 {
        0
    } else {
        let lead = latest_index(releases.drop_last(), rule);
        if rule(releases.last().version, releases[lead].version) == Rank::Less {
            lead
        } else {
            releases.len() - 1
        }
    }
}

/// The release that a catalog resolves to: the latest of those that pass,
/// or none where none passes.
pub open spec fn resolution(
    wanted: Option<Seq<char>>,
    catalog: Seq<ReleaseView>,
    rule: RankRule,
) -> Option<ReleaseView> {
    let candidates = matching(wanted, catalog);
    if candidates.len() == 0 {
        None
    } else {
        Some(candidates[latest_index(candidates, rule)])
    }
}

/// A version is newer than the baseline where there is no baseline, or
/// where it ranks strictly above it.
pub open spec fn is_newer(baseline: Option<Seq<char>>, version: Seq<char>, rule: RankRule) -> bool {
    match baseline {
        Some(current) => rule(version, current) == Rank::Greater,
        None => true,
    }
}

/// The release that a catalog resolves to where only a newer one counts:
/// the one that it resolves to, if that is newer than the baseline.
pub open spec fn newer_resolution(
    wanted: Option<Seq<char>>,
    baseline: Option<Seq<char>>,
    catalog: Seq<ReleaseView>,
    rule: RankRule,
) -> Option<ReleaseView> {
    match resolution(wanted, catalog, rule) {
        Some(release) => if is_newer(baseline, release.version, rule) {
            Some(release)
        } else {
            None
        },
        None => None,
    }
}

/// What an optional release is in contracts.
pub open spec fn found_view(found: Option<StaticFileRelease>) -> Option<ReleaseView> {
    match found {
        Some(release) => Some(release@),
        None => None,
    }
}

/// The releases that a list refers to, each by its view.
pub open spec fn refs_view(releases: Seq<&StaticFileRelease>) -> Seq<ReleaseView> {
    releases.map_values(|r: &StaticFileRelease| r@)
}

/// `latest_index` stays within the list.
pub proof fn lemma_latest_index_bounds(releases: Seq<ReleaseView>, rule: RankRule)
    requires
        releases.len() > 0,
    ensures
        0 <= latest_index(releases, rule) < releases.len(),
    decreases releases.len(),
{
    if releases.len() > 1 {
        lemma_latest_index_bounds(releases.drop_last(), rule);
    }
}

/// The release at a place of a list is one of the releases it refers to.
pub proof fn lemma_place_is_candidate(found: Seq<&StaticFileRelease>, place: usize)
    requires
        place < found.len(),
    ensures
        refs_view(found)[place as int] == found[place as int]@,
        refs_view(found).contains(found[place as int]@),
{
    assert(refs_view(found)[place as int] == found[place as int]@);
}

/// Tells whether a release carries an asset of the given name.
pub fn has_asset(release: &StaticFileRelease, name: &String) -> (found: bool)
    ensures
        found == carries(release@, name@),
{
    for i in 0..release.assets.len()
        invariant
            forall|j: int| 0 <= j < i ==> (#[trigger] release@.assets[j]).name != name@,
    {
        if release.assets[i].name == *name {
            assert(release@.assets[i as int].name == name@);
            return true;
        }
    }
    false
}

/// The place of the latest release of a list, or nothing for an empty list.
pub fn latest<Sort: Fn(&str, &str) -> Ordering>(
    releases: &Vec<&StaticFileRelease>,
    sort_func: &Option<Sort>,
) -> (place: Option<usize>)
    requires
        answers_all(*sort_func),
    ensures
        match place {
            Some(p) => p < releases.len() && forall|rule: RankRule| #[trigger]
                ranks_by(*sort_func, rule) ==> p == latest_index(refs_view(releases@), rule),
            None => releases.len() == 0,
        },
{
    if releases.len() == 0 {
        return None;
    }
    let ghost all = refs_view(releases@);
    let ghost mut seen: int = 1;
    let mut lead: usize = 0;
    proof {
        assert(all.take(1).len() == 1);
    }
    for i in 1..releases.len()
        invariant
            all == refs_view(releases@),
            answers_all(*sort_func),
            seen == i,
            lead < i,
            forall|rule: RankRule| #[trigger]
                ranks_by(*sort_func, rule) ==> lead == latest_index(all.take(seen), rule),
    {
        let r = rank_versions(
            sort_func,
            releases[i].version.as_str(),
            releases[lead].version.as_str(),
        );
        proof {
            let next = all.take(seen + 1);
            assert(next.drop_last() == all.take(seen));
            assert(next.last() == all[seen]);
            assert forall|rule: RankRule| #[trigger] ranks_by(*sort_func, rule) implies (if r
                != Rank::Less {
                i
            } else {
                lead
            }) == latest_index(next, rule) by {
                let before = latest_index(all.take(seen), rule);
                assert(next[before] == all[before]);
            }
            seen = seen + 1;
        }
        if r != Rank::Less {
            lead = i;
        }
    }
    proof {
        assert(all.take(seen) == all);
    }
    Some(lead)
}

/// A resolver for the releases published at one location.
pub struct StaticFilesApi {
    url: String,
    asset_name: Option<String>,
    current_version: Option<String>,
}

/// What an optional text is in contracts.
pub open spec fn text_view(text: Option<String>) -> Option<Seq<char>> {
    match text {
        Some(t) => Some(t@),
        None => None,
    }
}

impl StaticFilesApi {
    /// The location that the resolver was made for.
    pub closed spec fn location(&self) -> Seq<char> {
        self.url@
    }

    /// The name of the asset that a release must carry, if any.
    pub closed spec fn wanted_asset(&self) -> Option<Seq<char>> {
        text_view(self.asset_name)
    }

    /// The version in use, if it was given.
    pub closed spec fn baseline(&self) -> Option<Seq<char>> {
        text_view(self.current_version)
    }

    /// A resolver for the location that `url` is written as, with no wanted
    /// asset and no baseline.
    pub fn new(url: Url) -> (api: Self)
        ensures
            written_as(url, api.location()),
            api.wanted_asset() is None,
            api.baseline() is None,
    {
        let shown = url.to_string();
        Self::at(shown.as_str())
    }

    /// A resolver for the location given as text, with no wanted asset and
    /// no baseline.
    pub fn at(location: &str) -> (api: Self)
        ensures
            api.location() == location@,
            api.wanted_asset() is None,
            api.baseline() is None,
    {
        Self { url: location.to_owned(), asset_name: None, current_version: None }
    }

    /// Sets the version in use, which a release has to rank above to be
    /// newer.
    pub fn current_version(&mut self, current_version: &str) -> (api: &mut Self)
        ensures
            api.baseline() == Some(current_version@),
            api.wanted_asset() == old(self).wanted_asset(),
            api.location() == old(self).location(),
            *final(self) == *final(api),
    {
        self.current_version = Some(current_version.to_owned());
        self
    }

    /// Sets the name of the asset that a release must carry.
    pub fn asset_name(&mut self, asset_name: &str) -> (api: &mut Self)
        ensures
            api.wanted_asset() == Some(asset_name@),
            api.baseline() == old(self).baseline(),
            api.location() == old(self).location(),
            *final(self) == *final(api),
    {
        self.asset_name = Some(asset_name.to_owned());
        self
    }

    /// The address of the catalog: the location, then the catalog's name.
    pub fn releases_url(&self) -> (address: String)
        ensures
            address@ == self.location() + CATALOG_FILE@,
    {
        let mut address = self.url.clone();
        address.append(CATALOG_FILE);
        address
    }

    /// The releases that pass the resolver's filter, in the order given.
    pub fn match_releases<'releases>(&self, releases: &'releases [StaticFileRelease]) -> (found:
        Vec<&'releases StaticFileRelease>)
        ensures
            refs_view(found@) == matching(self.wanted_asset(), catalog_view(releases@)),
    {
        let ghost wanted = self.wanted_asset();
        let ghost all = catalog_view(releases@);
        let ghost pass = |r: ReleaseView| accepts(wanted, r);
        let mut found: Vec<&'releases StaticFileRelease> = Vec::new();
        proof {
            assert(all.take(0).filter(pass) == Seq::<ReleaseView>::empty());
            assert(refs_view(found@) == Seq::<ReleaseView>::empty());
        }
        for i in 0..releases.len()
            invariant
                wanted == self.wanted_asset(),
                all == catalog_view(releases@),
                pass == (|r: ReleaseView| accepts(wanted, r)),
                refs_view(found@) == all.take(i as int).filter(pass),
        {
            let release = &releases[i];
            let passes = match &self.asset_name {
                Some(name) => has_asset(release, name),
                None => true,
            };
            proof {
                reveal(Seq::filter);
                assert(all.take(i + 1).drop_last() == all.take(i as int));
                assert(all.take(i + 1).last() == release@);
                assert(passes == pass(release@));
                assert(refs_view(found@.push(release)) == refs_view(found@).push(release@));
            }
            if passes {
                found.push(release);
            }
        }
        proof {
            assert(all.take(releases.len() as int) == all);
        }
        found
    }

    /// Resolves the latest release of a fetched catalog. A failed fetch is
    /// handed on as it came. The releases that pass the filter are ranked by
    /// `sort_func`, or by their tags where it is `None`, and a copy of the
    /// latest is returned; where none passes, that is the error. What was
    /// fetched stays as it is.
    pub fn send<Sort: Fn(&str, &str) -> Ordering>(
        &self,
        fetched: &Result<Vec<StaticFileRelease>, Error>,
        sort_func: &Option<Sort>,
    ) -> (out: Result<StaticFileRelease, Error>)
        requires
            answers_all(*sort_func),
        ensures
            match *fetched {
                Err(e) => out == Err::<StaticFileRelease, Error>(e),
                Ok(releases) => {
                    let candidates = matching(self.wanted_asset(), catalog_view(releases@));
                    if candidates.len() == 0 {
                        out == Err::<StaticFileRelease, Error>(Error::NoMatchingRelease)
                    } else {
                        &&& out is Ok
                        &&& candidates.contains(out->Ok_0@)
                        &&& forall|rule: RankRule| #[trigger]
                            ranks_by(*sort_func, rule) ==> Some(out->Ok_0@) == resolution(
                                self.wanted_asset(),
                                catalog_view(releases@),
                                rule,
                            )
                    }
                },
            },
    {
        let releases = match fetched {
            Ok(releases) => releases,
            Err(e) => {
                return Err(e.clone());
            },
        };
        let found = self.match_releases(releases.as_slice());
        match latest(&found, sort_func) {
            Some(place) => {
                proof {
                    lemma_place_is_candidate(found@, place);
                }
                Ok(found[place].clone())
            },
            None => Err(Error::no_release()),
        }
    }

    /// Resolves the latest release of a fetched catalog, and returns it only
    /// if it is newer than the version in use: always where no such version
    /// was set, else where it ranks strictly above it under the ordering
    /// that picked it. Errors are those of `send`.
    pub fn get_newer<Sort: Fn(&str, &str) -> Ordering>(
        &self,
        fetched: &Result<Vec<StaticFileRelease>, Error>,
        sort_func: &Option<Sort>,
    ) -> (out: Result<Option<StaticFileRelease>, Error>)
        requires
            answers_all(*sort_func),
        ensures
            match *fetched {
                Err(e) => out == Err::<Option<StaticFileRelease>, Error>(e),
                Ok(releases) => {
                    let candidates = matching(self.wanted_asset(), catalog_view(releases@));
                    if candidates.len() == 0 {
                        out == Err::<Option<StaticFileRelease>, Error>(Error::NoMatchingRelease)
                    } else {
                        &&& out is Ok
                        &&& out->Ok_0 matches Some(release) ==> candidates.contains(release@)
                        &&& self.baseline() is None ==> out->Ok_0 is Some
                        &&& forall|rule: RankRule| #[trigger]
                            ranks_by(*sort_func, rule) ==> found_view(out->Ok_0)
                                == newer_resolution(
                                self.wanted_asset(),
                                self.baseline(),
                                catalog_view(releases@),
                                rule,
                            )
                    }
                },
            },
    {
        let latest_release = match self.send(fetched, sort_func) {
            Ok(release) => release,
            Err(e) => {
                return Err(e);
            },
        };
        let newer = match &self.current_version {
            Some(current) => rank_versions(
                sort_func,
                latest_release.version.as_str(),
                current.as_str(),
            ) == Rank::Greater,
            None => true,
        };
        if newer {
            Ok(Some(latest_release))
        } else {
            Ok(None)
        }
    }

    /// Answers a request for an asset. Assets are not fetched: the answer
    /// is always the error that says so.
    pub fn download(&self, asset: &StaticFileAsset) -> (out: Result<(), Error>)
        ensures
            out matches Err(Error::DownloadError(text)) && text@ == DOWNLOAD_UNSUPPORTED@,
    {
        Err(Error::DownloadError(DOWNLOAD_UNSUPPORTED.to_owned()))
    }
}

} // verus!
