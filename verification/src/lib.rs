use vstd::prelude::*;

pub mod auth;
pub mod classify;
pub mod error;
pub mod text;
pub mod upload;

verus! {

use vstd::string::*;
use crate::text::str_eq;

/// The `data` member of a post-submission response.
#[derive(Debug)]
pub struct TwitterPostData {
    pub id: String,
    pub text: Option<String>,
}

impl TwitterPostData {
    pub fn new(id: String, text: Option<String>) -> (r: Self)
        ensures
            r.id == id,
            r.text == text,
    {
        TwitterPostData { id, text }
    }

    pub fn id(&self) -> (r: &str)
        ensures
            r@ == self.id@,
    {
        self.id.as_str()
    }

    pub fn has_text(&self) -> (r: bool)
        ensures
            r == self.text is Some,
    {
        self.text.is_some()
    }

    pub fn description(&self) -> (r: &str)
        ensures
            self.text matches Some(t) ==> r@ == t@,
            self.text is None ==> r@ == "none"@,
    {
        match &self.text {
            Some(description) => description.as_str(),
            None => "none",
        }
    }
}

/// Server-reported progress of asynchronous media processing, as carried
/// in a finalize or status response.
#[derive(Debug)]
pub struct TwitterMediaResponseProcessingInfo {
    pub state: String,
    pub progress_percent: Option<u32>,
    pub check_after_secs: Option<u64>,
}

impl TwitterMediaResponseProcessingInfo {
    pub fn new(state: String, progress_percent: Option<u32>, check_after_secs: Option<u64>) -> (
        r: Self)
        ensures
            r.state == state,
            r.progress_percent == progress_percent,
            r.check_after_secs == check_after_secs,
    {
        TwitterMediaResponseProcessingInfo { state, progress_percent, check_after_secs }
    }
}

/// Closed processing state derived from a poll response.
#[derive(Debug, Clone, Copy, PartialEq, Eq, Structural)]
pub enum MediaStatus {
    InProgress,
    Succeeded,
    Failed,
    Bad,
}

/// What `status` returns for a given response.
pub open spec fn media_status_of(r: TwitterMediaResponse) -> MediaStatus {
    match r.processing_info {
        Some(info) => if info.state@ == "in_progress"@ {
            MediaStatus::InProgress
        } else if info.state@ == "succeeded"@ {
            MediaStatus::Succeeded
        } else if info.state@ == "failed"@ {
            MediaStatus::Failed
        } else {
            MediaStatus::Bad
        },
        None => MediaStatus::Bad,
    }
}

/// A media-upload response: the server-assigned identifier and, when the
/// server is still processing the asset, the processing information.
#[derive(Debug)]
pub struct TwitterMediaResponse {
    pub media_id: u64,
    pub media_id_string: String,
    pub expires_after_secs: Option<u32>,
    pub processing_info: Option<TwitterMediaResponseProcessingInfo>,
}

impl TwitterMediaResponse {
    pub fn new(
        media_id: u64,
        media_id_string: String,
        expires_after_secs: Option<u32>,
        processing_info: Option<TwitterMediaResponseProcessingInfo>,
    ) -> (r: Self)
        ensures
            r.media_id == media_id,
            r.media_id_string == media_id_string,
            r.expires_after_secs == expires_after_secs,
            r.processing_info == processing_info,
    {
        TwitterMediaResponse { media_id, media_id_string, expires_after_secs, processing_info }
    }

    /// The closed processing state this response reports.
    pub fn status(&self) -> (r: MediaStatus)
        ensures
            r == media_status_of(*self),
    {
        match &self.processing_info {
            Some(processing_info) => {
                if str_eq(processing_info.state.as_str(), "in_progress") {
                    MediaStatus::InProgress
                } else if str_eq(processing_info.state.as_str(), "succeeded") {
                    MediaStatus::Succeeded
                } else if str_eq(processing_info.state.as_str(), "failed") {
                    MediaStatus::Failed
                } else {
                    MediaStatus::Bad
                }
            },
            None => MediaStatus::Bad,
        }
    }

    /// The server's "check again after" hint, defaulting to one second.
    /// Only meaningful while processing information is present.
    pub fn seconds_left(&self) -> (r: u64)
        requires
            self.processing_info is Some,
        ensures
            r == (match self.processing_info {
                Some(info) => match info.check_after_secs {
                    Some(s) => s,
                    None => 1u64,
                },
                None => 1u64,
            }),
    {
        match &self.processing_info {
            Some(info) => match info.check_after_secs {
                Some(s) => s,
                None => 1,
            },
            None => 1,
        }
    }

    pub fn id(&self) -> (r: &str)
        ensures
            r@ == self.media_id_string@,
    {
        self.media_id_string.as_str()
    }
}

/// The `data` member of a profile response.
#[derive(Debug)]
pub struct TwitterUserData {
    pub id: String,
    pub name: String,
    pub username: String,
    pub description: Option<String>,
    pub created_at: Option<String>,
}

impl TwitterUserData {
    pub fn new(
        id: String,
        name: String,
        username: String,
        description: Option<String>,
        created_at: Option<String>,
    ) -> (r: Self)
        ensures
            r.id == id,
            r.name == name,
            r.username == username,
            r.description == description,
            r.created_at == created_at,
    {
        TwitterUserData { id, name, username, description, created_at }
    }

    pub fn id(&self) -> (r: &str)
        ensures
            r@ == self.id@,
    {
        self.id.as_str()
    }

    pub fn name(&self) -> (r: &str)
        ensures
            r@ == self.name@,
    {
        self.name.as_str()
    }

    pub fn username(&self) -> (r: &str)
        ensures
            r@ == self.username@,
    {
        self.username.as_str()
    }

    pub fn has_description(&self) -> (r: bool)
        ensures
            r == self.description is Some,
    {
        self.description.is_some()
    }

    pub fn description(&self) -> (r: &str)
        ensures
            self.description matches Some(d) ==> r@ == d@,
            self.description is None ==> r@ == ""@,
    {
        match &self.description {
            Some(description) => description.as_str(),
            None => "",
        }
    }

    pub fn has_created_at(&self) -> (r: bool)
        ensures
            r == self.created_at is Some,
    {
        self.created_at.is_some()
    }

    pub fn created_at(&self) -> (r: &str)
        ensures
            self.created_at matches Some(d) ==> r@ == d@,
            self.created_at is None ==> r@ == "invalid"@,
    {
        match &self.created_at {
            Some(date) => date.as_str(),
            None => "invalid",
        }
    }
}

/// Collects the media identifiers to attach to a post. The request body
/// is assembled from the finished value, not through chained mutation.
#[derive(Debug)]
pub struct TweetMediaBuilder {
    pub media_ids: Vec<String>,
}

impl TweetMediaBuilder {
    /// Appends the identifier of an uploaded asset, if one is given.
    pub fn add(&mut self, media: Option<TwitterMediaResponse>)
        ensures
            match media {
                Some(data) => final(self).media_ids@ == old(self).media_ids@.push(
                    data.media_id_string),
                None => final(self).media_ids@ == old(self).media_ids@,
            },
    {
        if let Some(data) = media {
            self.media_ids.push(data.media_id_string);
        }
    }

    /// Appends a numeric media identifier, rendered in decimal.
    pub fn id(&mut self, id: u64)
        ensures
            final(self).media_ids@.len() == old(self).media_ids@.len() + 1,
            final(self).media_ids@ == old(self).media_ids@.push(final(self).media_ids@.last()),
            final(self).media_ids@.last()@ == crate::text::decimal_of(id as nat),
    {
        let rendered = crate::text::u64_to_decimal(id);
        self.media_ids.push(rendered);
    }
}

impl Default for TweetMediaBuilder {
    fn default() -> (r: Self)
        ensures
            r.media_ids@ =~= Seq::<String>::empty(),
    {
        TweetMediaBuilder { media_ids: Vec::new() }
    }
}

/// The fields of a post, fully constructed before the request is issued.
#[derive(Debug)]
pub struct TweetBuilder {
    pub text: Option<String>,
    pub media: Option<TweetMediaBuilder>,
}

impl TweetBuilder {
    /// Sets the post's text.
    pub fn text(&mut self, text: &str)
        ensures
            final(self).text matches Some(t) && t@ == text@,
            final(self).media == old(self).media,
    {
        self.text = Some(String::from_str(text));
    }

    /// Attaches the collected media identifiers.
    pub fn media(&mut self, media: TweetMediaBuilder)
        ensures
            final(self).media == Some(media),
            final(self).text == old(self).text,
    {
        self.media = Some(media);
    }
}

impl Default for TweetBuilder {
    fn default() -> (r: Self)
        ensures
            r.text is None,
            r.media is None,
    {
        TweetBuilder { text: None, media: None }
    }
}

} // verus!
