//! Helm chart repositories served over HTTPS: an `index.yaml` at the root of
//! the repository lists, under `entries`, the published versions of each
//! chart.

use super::{Backend, BackendError};
use crate::locator::{join, scheme_of, url_join, url_scheme};
use crate::selection::{latest_of, select_latest, views_of};
use crate::text::same_text;
use crate::version::{lenient_version, Version, VersionView};
use crate::yaml::{
    parse_yaml, yaml_content, yaml_member, yaml_parse, yaml_sequence, yaml_text, YamlNode,
};
use vstd::prelude::*;
use vstd::string::StringExecFns;

verus! {

/// A chart of a Helm repository.
#[derive(Debug)]
pub struct Helm {
    /// The address of the repository.
    pub repo: String,
    /// The name of the chart.
    pub chart: String,
}

/// Whether a repository with this URL scheme can be used: HTTPS alone is
/// served; an OCI registry is recognized and refused as not implemented yet.
pub open spec fn scheme_validity(scheme: Seq<char>) -> Result<(), BackendError> {
    if scheme == "oci"@ {
        Err(BackendError::NotYetSupported)
    } else if scheme != "https"@ {
        Err(BackendError::UnsupportedScheme)
    } else {
        Ok(())
    }
}

/// Whether a repository at the address `repo` can be used.
pub open spec fn repository_validity(repo: Seq<char>) -> Result<(), BackendError> {
    match url_scheme(repo) {
        Some(scheme) => scheme_validity(scheme),
        None => Err(BackendError::InvalidUrl),
    }
}

/// The address of the index of the repository at `repo`.
pub open spec fn index_location(repo: Seq<char>) -> Result<Seq<char>, BackendError> {
    match url_join(repo, "index.yaml"@) {
        Some(url) => Ok(url),
        None => Err(BackendError::InvalidUrl),
    }
}

/// The version text that an index entry declares: its `version` member,
/// where that is a text.
pub open spec fn entry_text(entry: YamlNode) -> Option<Seq<char>> {
    entry.member("version"@).text()
}

/// The version that an index entry declares: its version text, read
/// leniently. `None` where the entry declares no text or no version.
pub open spec fn entry_version(entry: YamlNode) -> Option<VersionView> {
    match entry_text(entry) {
        Some(text) => lenient_version(text),
        None => None,
    }
}

/// The versions of a list of entries that all declare one.
pub open spec fn entry_versions(entries: Seq<YamlNode>) -> Seq<VersionView> {
    Seq::new(entries.len(), |i: int| entry_version(entries[i])->0)
}

/// What a chart's entries resolve to: the version text of the latest
/// release among them, verbatim. An entry without a readable version fails
/// the whole list, wherever it stands.
pub open spec fn entries_resolution(entries: Seq<YamlNode>) -> Result<Seq<char>, BackendError> {
    if exists|i: int| 0 <= i < entries.len() && entry_version(#[trigger] entries[i]) is None {
        Err(BackendError::MalformedVersion)
    } else {
        match latest_of(entry_versions(entries)) {
            Some(i) => Ok(entry_text(entries[i])->0),
            None => Err(BackendError::NoVersionsFound),
        }
    }
}

/// What an index document resolves to for `chart`.
pub open spec fn index_resolution(index: Seq<char>, chart: Seq<char>) -> Result<
    Seq<char>,
    BackendError,
> {
    match yaml_parse(index) {
        None => Err(BackendError::MalformedIndex),
        Some(root) => match root.member("entries"@).member(chart) {
            YamlNode::Sequence(entries) => entries_resolution(entries),
            _ => Err(BackendError::ChartNotFound),
        },
    }
}

/// Decides whether a repository with the URL scheme `scheme` can be used.
pub fn validate_scheme(scheme: &str) -> (r: Result<(), BackendError>)
    ensures
        r == scheme_validity(scheme@),
{
    if same_text(scheme, "oci") {
        Err(BackendError::NotYetSupported)
    } else if !same_text(scheme, "https") {
        Err(BackendError::UnsupportedScheme)
    } else {
        Ok(())
    }
}

/// The nodes of a list of YAML values.
spec fn contents_of(items: Seq<serde_yaml::Value>) -> Seq<YamlNode> {
    Seq::new(items.len(), |i: int| yaml_content(items[i]))
}

/// Reads the version of every entry, in order: the texts as the index
/// writes them, and what they parse to. `None` where an entry has no
/// readable version.
fn read_versions<'a>(items: &'a Vec<serde_yaml::Value>) -> (r: Option<(Vec<&'a str>, Vec<Version>)>)
    ensures
        match r {
            Some((texts, versions)) => {
                &&& forall|i: int|
                    0 <= i < items.len() ==> entry_version(#[trigger] contents_of(items@)[i])
                        is Some
                &&& texts.len() == items.len()
                &&& forall|i: int|
                    0 <= i < items.len() ==> entry_text(contents_of(items@)[i]) == Some(
                        (#[trigger] texts@[i])@,
                    )
                &&& views_of(versions@) == entry_versions(contents_of(items@))
            },
            None => exists|i: int|
                0 <= i < items.len() && entry_version(#[trigger] contents_of(items@)[i]) is None,
        },
{
    let ghost entries = contents_of(items@);
    let mut texts: Vec<&'a str> = Vec::new();
    let mut versions: Vec<Version> = Vec::new();
    let mut i: usize = 0;
    while i < items.len()
        invariant
            i <= items.len(),
            entries == contents_of(items@),
            texts.len() == i,
            versions.len() == i,
            forall|k: int| 0 <= k < i ==> entry_version(#[trigger] entries[k]) is Some,
            forall|k: int| 0 <= k < i ==> entry_text(entries[k]) == Some((#[trigger] texts@[k])@),
            forall|k: int| 0 <= k < i ==> versions@[k]@ == entry_version(entries[k])->0,
        decreases items.len() - i,
    {
        assert(entries[i as int] == yaml_content(items@[i as int]));
        match yaml_text(yaml_member(&items[i], "version")) {
            None => {
                assert(entry_version(entries[i as int]) is None);
                return None;
            },
            Some(text) => {
                match Version::parse(text) {
                    Err(_) => {
                        assert(entry_version(entries[i as int]) is None);
                        return None;
                    },
                    Ok(version) => {
                        texts.push(text);
                        versions.push(version);
                    },
                }
            },
        }
        i = i + 1;
    }
    assert(views_of(versions@) =~= entry_versions(entries));
    Some((texts, versions))
}

impl Helm {
    /// A chart named `chart` of the repository at `repo`.
    pub fn new(repo: String, chart: String) -> (r: Helm)
        ensures
            r.repo == repo,
            r.chart == chart,
    {
        Helm { repo, chart }
    }
}

impl Backend for Helm {
    open spec fn validity(&self) -> Result<(), BackendError> {
        repository_validity(self.repo@)
    }

    open spec fn location(&self) -> Result<Seq<char>, BackendError> {
        index_location(self.repo@)
    }

    open spec fn resolution(&self, index: Seq<char>) -> Result<Seq<char>, BackendError> {
        index_resolution(index, self.chart@)
    }

    fn initialize(&self) -> (r: Result<(), BackendError>) {
        match scheme_of(self.repo.as_str()) {
            Some(scheme) => validate_scheme(scheme.as_str()),
            None => Err(BackendError::InvalidUrl),
        }
    }

    fn index_url(&self) -> (r: Result<String, BackendError>) {
        match join(self.repo.as_str(), "index.yaml") {
            Some(url) => Ok(url),
            None => Err(BackendError::InvalidUrl),
        }
    }

    fn latest_version(&self, index: &str) -> (r: Result<String, BackendError>) {
        let root = match parse_yaml(index) {
            Some(root) => root,
            None => {
                return Err(BackendError::MalformedIndex);
            },
        };
        let chart = yaml_member(yaml_member(&root, "entries"), self.chart.as_str());
        let items = match yaml_sequence(chart) {
            Some(items) => items,
            None => {
                return Err(BackendError::ChartNotFound);
            },
        };
        let ghost entries = contents_of(items@);
        assert(yaml_content(*chart) == YamlNode::Sequence(entries));
        let (texts, versions) = match read_versions(items) {
            Some(read) => read,
            None => {
                return Err(BackendError::MalformedVersion);
            },
        };
        match select_latest(&versions) {
            Some(latest) => Ok(String::from_str(texts[latest])),
            None => Err(BackendError::NoVersionsFound),
        }
    }
}

} // verus!
