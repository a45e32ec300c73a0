//! `add`: enters one dependency into the manifest of a project.
use crate::error::{Error, ErrorView};
use crate::format::{encode_manifest, load_outcome};
use crate::json::{json_parsed, json_pretty};
use crate::parse::{clone_text, insert_outcome, text_view, ZagDep, ZagDepView, ZagFile, ZagFileView};
use url::Url;
use vstd::prelude::*;

verus! {

/// `url::Url`, of which nothing is known but what the functions below say.
#[verifier::external_type_specification]
#[verifier::external_body]
pub struct ExUrl(Url);

/// The text of a URL: its serialization, which is what `to_string` gives
/// for it.
pub uninterp spec fn url_text(url: Url) -> Seq<char>;

/// What `Url::path_segments` gives for a URL: the segments of its path, or
/// nothing where the URL has no such path, as one that cannot be a base.
pub uninterp spec fn url_path_segments(url: Url) -> Option<Seq<Seq<char>>>;

/// Calls `to_string` on a `Url`, which copies its serialization. Claims only
/// that the text is the one that `url_text` names.
#[verifier::external_body]
fn url_to_string(url: &Url) -> (text: String)
    ensures
        text@ == url_text(*url),
{
    url.to_string()
}

/// Whether a text can be a segment of a URL's path: ASCII characters, none
/// of them a slash.
pub open spec fn is_path_segment(text: Seq<char>) -> bool {
    vstd::utf8::is_ascii_chars(text) && !text.contains('/')
}

/// Calls `Url::path_segments` and collects the segments, each as a `String`.
/// Claims that they are the ones that `url_path_segments` names, and what
/// the method's documentation says of them: there is at least one, and each
/// is a piece of the path between slashes, in percent-encoded ASCII.
#[verifier::external_body]
fn url_segments(url: &Url) -> (segments: Option<Vec<String>>)
    ensures
        segments_view(segments) == url_path_segments(*url),
        segments matches Some(parts) ==> parts.len() > 0 && forall|i: int|
            0 <= i < parts.len() ==> is_path_segment((#[trigger] parts[i])@),
{
    url.path_segments().map(|parts| parts.map(String::from).collect())
}

/// A list of texts as sequences of characters.
pub open spec fn texts_view(texts: Seq<String>) -> Seq<Seq<char>> {
    Seq::new(texts.len(), |i: int| texts[i]@)
}

/// The segments of a path, or nothing, as sequences of characters.
pub open spec fn segments_view(segments: Option<Vec<String>>) -> Option<Seq<Seq<char>>> {
    match segments {
        Some(parts) => Some(texts_view(parts@)),
        None => None,
    }
}

/// The name that a repository gives to a dependency: the last segment of
/// its path. There is none where the URL has no segments or the last one is
/// empty.
pub open spec fn derived_name(segments: Option<Seq<Seq<char>>>) -> Option<Seq<char>> {
    match segments {
        Some(parts) => if parts.len() > 0 && parts.last().len() > 0 {
            Some(parts.last())
        } else {
            None
        },
        None => None,
    }
}

/// The name to use: the one given, or else the one that the repository
/// gives; `NameDerivationFailed` where neither is there.
pub open spec fn chosen_name(
    given: Option<Seq<char>>,
    segments: Option<Seq<Seq<char>>>,
    repo: Seq<char>,
) -> Result<Seq<char>, ErrorView> {
    match given {
        Some(name) => Ok(name),
        None => match derived_name(segments) {
            Some(name) => Ok(name),
            None => Err(ErrorView::NameDerivationFailed { repo }),
        },
    }
}

/// A text or an error, as views.
pub open spec fn text_result_view(result: Result<String, Error>) -> Result<Seq<char>, ErrorView> {
    match result {
        Ok(text) => Ok(text@),
        Err(e) => Err(e@),
    }
}

/// The last segment of a path, where there is one and it is not empty.
pub fn derive_name(segments: &Option<Vec<String>>) -> (name: Option<String>)
    ensures
        text_view(name) == derived_name(segments_view(*segments)),
{
    match segments {
        Some(parts) => {
            if parts.len() == 0 {
                return None;
            }
            let last = &parts[parts.len() - 1];
            assert(texts_view(parts@).last() == last@);
            if last.as_str().is_empty() {
                None
            } else {
                Some(last.clone())
            }
        },
        None => None,
    }
}

/// The name of the manifest file where none is given.
pub const MANIFEST_FILE: &'static str = "zag.json";

/// What `add` was asked to do.
#[derive(Debug)]
pub struct Add {
    /// The repository of the dependency.
    pub repo: Url,
    /// The version wanted.
    pub version: String,
    /// The entry file of the dependency.
    pub entry: Option<String>,
    /// The name to enter it under; where none is given, the repository gives
    /// one.
    pub name: Option<String>,
    /// The directory of the project; where none is given, the current one.
    pub target_path: Option<String>,
    /// The manifest file, relative to the directory of the project.
    pub target_entry: Option<String>,
}

impl Add {
    /// The name under which the dependency is entered.
    pub open spec fn spec_name(&self) -> Result<Seq<char>, ErrorView> {
        chosen_name(text_view(self.name), url_path_segments(self.repo), url_text(self.repo))
    }

    /// The record that is entered.
    pub open spec fn spec_record(&self) -> ZagDepView {
        ZagDepView {
            repo: url_text(self.repo),
            version: self.version@,
            entry: text_view(self.entry),
        }
    }

    /// The manifest file, relative to the directory of the project.
    pub open spec fn spec_manifest_entry(&self) -> Seq<char> {
        match self.target_entry {
            Some(path) => path@,
            None => MANIFEST_FILE@,
        }
    }

    /// What the command makes of a manifest.
    pub open spec fn spec_apply(&self, manifest: ZagFileView) -> Result<ZagFileView, ErrorView> {
        match self.spec_name() {
            Ok(name) => insert_outcome(manifest, name, self.spec_record()),
            Err(e) => Err(e),
        }
    }

    /// What the command makes of the text of a manifest file: the text to
    /// write in its place, or the error to report. The name is settled
    /// first, then the file is read, the dependency is entered and the
    /// manifest is written out.
    pub open spec fn spec_execute(&self, text: Seq<char>) -> Result<Seq<char>, ErrorView> {
        match self.spec_name() {
            Err(e) => Err(e),
            Ok(name) => match load_outcome(json_parsed(text)) {
                None => Err(ErrorView::MalformedManifest),
                Some(manifest) => match insert_outcome(manifest, name, self.spec_record()) {
                    Err(e) => Err(e),
                    Ok(after) => match json_pretty(encode_manifest(after)) {
                        Some(written) => Ok(written),
                        None => Err(ErrorView::IoError { path: self.spec_manifest_entry() }),
                    },
                },
            },
        }
    }

    /// The name under which the dependency is entered: the one given, or
    /// else the last segment of the repository's path.
    pub fn name(&self) -> (name: Result<String, Error>)
        ensures
            text_result_view(name) == self.spec_name(),
            self.name is None ==> (name matches Ok(derived) ==> derived@.len() > 0
                && is_path_segment(derived@)),
    {
        match &self.name {
            Some(name) => Ok(name.clone()),
            None => match derive_name(&url_segments(&self.repo)) {
                Some(name) => Ok(name),
                None => Err(Error::NameDerivationFailed { repo: url_to_string(&self.repo) }),
            },
        }
    }

    /// The record that is entered: the repository as text, the version and
    /// the entry file.
    pub fn record(&self) -> (record: ZagDep)
        ensures
            record@ == self.spec_record(),
    {
        ZagDep {
            repo: url_to_string(&self.repo),
            version: self.version.clone(),
            entry: clone_text(&self.entry),
        }
    }

    /// The manifest file, relative to the directory of the project:
    /// `target_entry`, or else `zag.json`.
    pub fn manifest_entry(&self) -> (path: String)
        ensures
            path@ == self.spec_manifest_entry(),
    {
        match &self.target_entry {
            Some(path) => path.clone(),
            None => MANIFEST_FILE.to_owned(),
        }
    }

    /// Enters the dependency into `manifest`. Where no name can be had, or
    /// the manifest already holds the name, the manifest stays as it was.
    pub fn apply(&self, manifest: &mut ZagFile) -> (done: Result<(), Error>)
        ensures
            match self.spec_apply(old(manifest)@) {
                Ok(after) => done is Ok && final(manifest)@ == after,
                Err(e) => done matches Err(x) && x@ == e && *final(manifest) == *old(manifest),
            },
    {
        let name = match self.name() {
            Ok(name) => name,
            Err(e) => { return Err(e); },
        };
        manifest.insert(name, self.record())
    }

    /// Runs the command on the text of the manifest file and gives the text
    /// to write in its place. On an error nothing is to be written.
    pub fn execute(self, manifest_text: &str) -> (written: Result<String, Error>)
        ensures
            text_result_view(written) == self.spec_execute(manifest_text@),
    {
        let name = match self.name() {
            Ok(name) => name,
            Err(e) => { return Err(e); },
        };
        let mut manifest = match ZagFile::load(manifest_text) {
            Ok(manifest) => manifest,
            Err(e) => { return Err(e); },
        };
        match manifest.insert(name, self.record()) {
            Ok(_) => {},
            Err(e) => { return Err(e); },
        }
        match manifest.render() {
            Some(text) => Ok(text),
            None => Err(Error::IoError { path: self.manifest_entry() }),
        }
    }
}

} // verus!
