//! The catalog's data: releases, the assets they carry, and what can go
//! wrong while one is looked for.

use reqwest::Error as TransportError;
use vstd::prelude::*;

verus! {

/// One downloadable file of a release.
#[derive(Debug, PartialEq, Eq, Hash)]
pub struct StaticFileAsset {
    pub name: String,
    pub url: String,
}

/// What an asset is in contracts: its name and its address, as text.
pub struct AssetView {
    pub name: Seq<char>,
    pub url: Seq<char>,
}

impl View for StaticFileAsset {
    type V = AssetView;

    open spec fn view(&self) -> AssetView {
        AssetView { name: self.name@, url: self.url@ }
    }
}

impl Clone for StaticFileAsset {
    fn clone(&self) -> (copy: Self)
        ensures
            copy@ == self@,
    {
        StaticFileAsset { name: self.name.clone(), url: self.url.clone() }
    }
}

/// One published version and the assets that belong to it.
#[derive(Debug, PartialEq, Eq, Hash)]
pub struct StaticFileRelease {
    pub version: String,
    pub assets: Vec<StaticFileAsset>,
}

/// What a release is in contracts: its version as text, and its assets in
/// their order.
pub struct ReleaseView {
    pub version: Seq<char>,
    pub assets: Seq<AssetView>,
}

/// The assets of a list, each by its view.
pub open spec fn assets_view(assets: Seq<StaticFileAsset>) -> Seq<AssetView> {
    assets.map_values(|a: StaticFileAsset| a@)
}

/// The releases of a list, each by its view.
pub open spec fn catalog_view(releases: Seq<StaticFileRelease>) -> Seq<ReleaseView> {
    releases.map_values(|r: StaticFileRelease| r@)
}

impl View for StaticFileRelease {
    type V = ReleaseView;

    open spec fn view(&self) -> ReleaseView {
        ReleaseView { version: self.version@, assets: assets_view(self.assets@) }
    }
}

impl Clone for StaticFileRelease {
    fn clone(&self) -> (copy: Self)
        ensures
            copy@ == self@,
    {
        let mut assets: Vec<StaticFileAsset> = Vec::new();
        for i in 0..self.assets.len()
            invariant
                assets_view(assets@) == assets_view(self.assets@).take(i as int),
        {
            let asset = self.assets[i].clone();
            proof {
                assert(assets_view(assets@.push(asset)) == assets_view(assets@).push(asset@));
                assert(assets_view(self.assets@).take(i + 1) == assets_view(self.assets@).take(
                    i as int,
                ).push(self.assets@[i as int]@));
            }
            assets.push(asset);
        }
        proof {
            assert(assets_view(self.assets@).take(self.assets@.len() as int) == assets_view(
                self.assets@,
            ));
        }
        StaticFileRelease { version: self.version.clone(), assets }
    }
}

/// `reqwest::Error`, what a request that failed leaves behind. What it holds
/// is not visible to contracts.
#[verifier::external_type_specification]
#[verifier::external_body]
pub struct ExTransportError(TransportError);

/// Why a release could not be resolved, or an asset not be had.
#[derive(Debug, PartialEq, Eq)]
pub enum Error {
    /// The catalog could not be fetched or could not be read; the text says
    /// what the transport reported.
    FetchError(String),
    /// The catalog holds no release that carries the wanted asset.
    NoMatchingRelease,
    /// An asset could not be downloaded; the text says why.
    DownloadError(String),
}

impl Clone for Error {
    fn clone(&self) -> (copy: Self)
        ensures
            copy == *self,
    {
        match self {
            Error::FetchError(text) => Error::FetchError(text.clone()),
            Error::NoMatchingRelease => Error::NoMatchingRelease,
            Error::DownloadError(text) => Error::DownloadError(text.clone()),
        }
    }
}

impl Error {
    /// The error of a fetch that failed in the transport, with the text by
    /// which the transport describes its failure.
    pub fn from_transport(failure: &TransportError) -> (e: Error)
        ensures
            e matches Error::FetchError(text) && vstd::string::to_string_from_display_ensures::<
                TransportError,
            >(failure, text),
    {
        Error::FetchError(failure.to_string())
    }

    /// The error of a catalog without a matching release.
    pub fn no_release() -> (e: Error)
        ensures
            e == Error::NoMatchingRelease,
    {
        Error::NoMatchingRelease
    }
}

} // verus!
