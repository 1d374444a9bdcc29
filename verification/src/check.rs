//! The update check: what to do with each thing the transport reports.

use crate::document::{error_text, json_text_members, member, parse_document, text_member};
use crate::version::{is_newer, is_newer_version};
use vstd::prelude::*;

verus! {

/// The repository whose releases are checked, as owner and name.
pub const GITHUB_REPO: &'static str = "eve-wrench/eve-wrench-app";

/// A release that is newer than the running application.
#[derive(Debug, Clone, PartialEq, Eq)]
pub struct UpdateInfo {
    /// The version of the running application.
    pub current_version: String,
    /// The version of the release, without a leading `v`.
    pub latest_version: String,
    /// A link to the release, empty where the index gave none.
    pub release_url: String,
    /// The release's description, empty where the index gave none.
    pub release_notes: String,
}

/// What an `UpdateInfo` holds, as text.
pub struct UpdateInfoView {
    pub current_version: Seq<char>,
    pub latest_version: Seq<char>,
    pub release_url: Seq<char>,
    pub release_notes: Seq<char>,
}

impl View for UpdateInfo {
    type V = UpdateInfoView;

    open spec fn view(&self) -> UpdateInfoView {
        UpdateInfoView {
            current_version: self.current_version@,
            latest_version: self.latest_version@,
            release_url: self.release_url@,
            release_notes: self.release_notes@,
        }
    }
}

impl UpdateInfo {
    /// An `UpdateInfo` announces a release only if that release is newer
    /// than the running version.
    pub open spec fn well_formed(&self) -> bool {
        is_newer(self.latest_version@, self.current_version@)
    }
}

/// Why a check failed.
#[derive(Debug, Clone, PartialEq, Eq)]
pub enum ErrorReason {
    /// The request could not be completed; the text says why.
    Transport(String),
    /// The response body could not be read as a document; the text says why.
    Decode(String),
}

impl ErrorReason {
    /// The message that `self` stands for.
    pub open spec fn message_text(&self) -> Seq<char> {
        match self {
            ErrorReason::Transport(detail) => "Failed to check for updates: "@ + detail@,
            ErrorReason::Decode(detail) => "Failed to parse release: "@ + detail@,
        }
    }

    /// A message for the user: what failed, then the detail.
    pub fn message(&self) -> (text: String)
        ensures
            text@ == self.message_text(),
    {
        match self {
            ErrorReason::Transport(detail) => {
                let mut text = "Failed to check for updates: ".to_owned();
                text.append(detail.as_str());
                text
            },
            ErrorReason::Decode(detail) => {
                let mut text = "Failed to parse release: ".to_owned();
                text.append(detail.as_str());
                text
            },
        }
    }
}

/// The address of the release index for `repo`.
pub open spec fn index_url(repo: Seq<char>) -> Seq<char> {
    "https://api.github.com/repos/"@ + repo + "/releases/latest"@
}

/// The address from which the latest release of `GITHUB_REPO` is fetched.
pub fn release_index_url() -> (url: String)
    ensures
        url@ == index_url(GITHUB_REPO@),
{
    let mut url = "https://api.github.com/repos/".to_owned();
    url.append(GITHUB_REPO);
    url.append("/releases/latest");
    url
}

/// An HTTP status code in the range of success, 200 to 299.
pub open spec fn is_success(status: u16) -> bool {
    200 <= status < 300
}

/// Whether `status` reports success.
pub fn status_is_success(status: u16) -> (success: bool)
    ensures
        success == is_success(status),
{
    200 <= status && status < 300
}

/// A tag without the single `v` that may precede the version.
pub open spec fn without_prefix(tag: Seq<char>) -> Seq<char> {
    if tag.len() > 0 && tag[0] == 'v' {
        tag.skip(1)
    } else {
        tag
    }
}

/// Strips one leading `v` from a release tag, if there is one.
pub fn strip_version_prefix<'a>(tag: &'a str) -> (version: &'a str)
    ensures
        version@ == without_prefix(tag@),
{
    let len = tag.unicode_len();
    if len > 0 && tag.get_char(0) == 'v' {
        tag.substring_char(1, len)
    } else {
        tag
    }
}

/// The text of a member, empty where the member is missing.
pub open spec fn text_or_empty(text: Option<Seq<char>>) -> Seq<char> {
    match text {
        Some(found) => found,
        None => Seq::empty(),
    }
}

/// What a string that may be missing holds.
pub open spec fn text_of(text: Option<&str>) -> Option<Seq<char>> {
    match text {
        Some(found) => Some(found@),
        None => None,
    }
}

/// The text that was found, or the empty string.
fn or_empty<'a>(text: Option<&'a str>) -> (found: &'a str)
    ensures
        found@ == text_or_empty(text_of(text)),
{
    match text {
        Some(found) => found,
        None => {
            proof {
                reveal_strlit("");
            }
            ""
        },
    }
}

/// The release that the index announces, if it is newer than `current`.
///
/// `tag`, `url` and `notes` are the text members `tag_name`, `html_url` and
/// `body` of the index's answer. A missing member counts as empty text; the
/// version is the tag without its prefix.
pub open spec fn release_decision(
    current: Seq<char>,
    tag: Option<Seq<char>>,
    url: Option<Seq<char>>,
    notes: Option<Seq<char>>,
) -> Option<UpdateInfoView> {
    let latest = without_prefix(text_or_empty(tag));
    if is_newer(latest, current) {
        Some(
            UpdateInfoView {
                current_version: current,
                latest_version: latest,
                release_url: text_or_empty(url),
                release_notes: text_or_empty(notes),
            },
        )
    } else {
        None
    }
}

/// `found` is what `decision` describes.
pub open spec fn matches_decision(found: Option<UpdateInfo>, decision: Option<UpdateInfoView>) -> bool {
    match found {
        Some(info) => decision == Some(info@),
        None => decision is None,
    }
}

/// Decides from the members of the index's answer whether an update is
/// available, and describes it if so.
pub fn decide_update(
    current_version: &str,
    tag_name: Option<&str>,
    html_url: Option<&str>,
    body: Option<&str>,
) -> (found: Option<UpdateInfo>)
    ensures
        matches_decision(
            found,
            release_decision(current_version@, text_of(tag_name), text_of(html_url), text_of(body)),
        ),
        found matches Some(info) ==> info.well_formed(),
{
    let latest_version = strip_version_prefix(or_empty(tag_name));
    if is_newer_version(latest_version, current_version) {
        Some(
            UpdateInfo {
                current_version: current_version.to_owned(),
                latest_version: latest_version.to_owned(),
                release_url: or_empty(html_url).to_owned(),
                release_notes: or_empty(body).to_owned(),
            },
        )
    } else {
        None
    }
}

/// The outcome that the body of a successful response calls for.
///
/// Bytes that are no JSON document are a decode error. Otherwise the
/// document's text members `tag_name`, `html_url` and `body` decide.
pub open spec fn body_outcome(
    current: Seq<char>,
    body: Seq<u8>,
    outcome: Result<Option<UpdateInfo>, ErrorReason>,
) -> bool {
    match json_text_members(body) {
        Some(members) => outcome matches Ok(found) && matches_decision(
            found,
            release_decision(
                current,
                member(members, "tag_name"@),
                member(members, "html_url"@),
                member(members, "body"@),
            ),
        ),
        None => outcome matches Err(ErrorReason::Decode(_)),
    }
}

/// Reads the body of a successful response and decides whether it announces
/// an update.
pub fn read_release(current_version: &str, body: &[u8]) -> (outcome: Result<
    Option<UpdateInfo>,
    ErrorReason,
>)
    ensures
        body_outcome(current_version@, body@, outcome),
        outcome matches Ok(Some(info)) ==> info.well_formed(),
{
    match parse_document(body) {
        Ok(release) => Ok(
            decide_update(
                current_version,
                text_member(&release, "tag_name"),
                text_member(&release, "html_url"),
                text_member(&release, "body"),
            ),
        ),
        Err(error) => Err(ErrorReason::Decode(error_text(&error))),
    }
}

/// What the transport reports to the check.
#[derive(Debug, PartialEq, Eq)]
pub enum Reply {
    /// The request could not be completed; the text says why.
    SendFailed(String),
    /// A response arrived with this status code; its body is still unread.
    Status(u16),
    /// The body could not be read; the text says why.
    BodyFailed(String),
    /// The body, read in full.
    Body(Vec<u8>),
}

/// What the check asks of the transport next, or how it ended.
#[derive(Debug, PartialEq, Eq)]
pub enum Step {
    /// Read the body of the response and report it.
    ReadBody,
    /// The check is over: an update, none, or the reason it failed.
    Finished(Result<Option<UpdateInfo>, ErrorReason>),
}

/// The step that `reply` calls for, for an application at version `current`.
pub open spec fn step_for(current: Seq<char>, reply: Reply, step: Step) -> bool {
    match reply {
        Reply::SendFailed(detail) => step matches Step::Finished(
            Err(ErrorReason::Transport(reason)),
        ) && reason@ == detail@,
        Reply::Status(status) => if is_success(status) {
            step is ReadBody
        } else {
            step matches Step::Finished(Ok(None))
        },
        Reply::BodyFailed(detail) => step matches Step::Finished(Err(ErrorReason::Decode(reason)))
            && reason@ == detail@,
        Reply::Body(body) => step matches Step::Finished(outcome) && body_outcome(
            current,
            body@,
            outcome,
        ),
    }
}

/// Takes the check one step further.
///
/// The host sends one GET request to `release_index_url()` and reports what
/// happened; it reads the body only when asked to. A request that fails ends
/// the check with a transport error. A status outside the range of success
/// ends it with no update. A body that cannot be read, or that is no JSON
/// document, ends it with a decode error. Any other body ends it with the
/// update that the document announces, if that is newer than
/// `current_version`, and with no update otherwise.
pub fn check_for_update(current_version: &str, reply: Reply) -> (step: Step)
    ensures
        step_for(current_version@, reply, step),
        step matches Step::Finished(Ok(Some(info))) ==> info.well_formed(),
{
    match reply {
        Reply::SendFailed(detail) => Step::Finished(Err(ErrorReason::Transport(detail))),
        Reply::Status(status) => {
            if status_is_success(status) {
                Step::ReadBody
            } else {
                Step::Finished(Ok(None))
            }
        },
        Reply::BodyFailed(detail) => Step::Finished(Err(ErrorReason::Decode(detail))),
        Reply::Body(body) => Step::Finished(read_release(current_version, body.as_slice())),
    }
}

} // verus!
