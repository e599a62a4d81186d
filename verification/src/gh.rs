//! The device login: what the service answers, and what to do next.
//!
//! Sending the requests is the caller's part. The answers come here as the
//! texts that were received.

use crate::json::{
    fields_view, flag_member, flag_member_of, object_of, optional_flag, optional_flag_of,
    optional_text, optional_text_of, parse_object, text_member, text_member_of, text_view,
    unsigned_member, unsigned_member_of, JsonField, JsonModel,
};
use crate::text::{contains, matches_at};
use vstd::prelude::*;

verus! {

/// What GitHub answers when a device login is requested.
#[derive(Debug)]
pub struct GitHubDeviceLoginResponse {
    pub interval: u64,
    pub user_code: String,
    pub expires_in: u64,
    pub verification_uri: String,
    pub device_code: String,
}

/// The token GitHub hands out once the user has approved the device.
#[derive(Debug)]
pub struct GitHubDeviceTokenResponse {
    pub access_token: String,
    pub token_type: String,
    pub scope: String,
}

/// The profile of the authenticated GitHub user.
#[derive(Debug)]
pub struct GithubUserData {
    pub login: String,
    pub id: u64,
    pub node_id: String,
    pub avatar_url: String,
    pub gravatar_id: String,
    pub url: String,
    pub html_url: String,
    pub followers_url: String,
    pub following_url: String,
    pub gists_url: String,
    pub starred_url: String,
    pub subscriptions_url: String,
    pub organizations_url: String,
    pub repos_url: String,
    pub events_url: String,
    pub received_events_url: String,
    pub type_: String,
    pub site_admin: bool,
    pub name: String,
    pub company: Option<String>,
    pub blog: String,
    pub location: String,
    pub email: Option<String>,
    pub hireable: Option<bool>,
    pub bio: String,
    pub twitter_username: Option<String>,
    pub public_repos: u64,
    pub public_gists: u64,
    pub followers: u64,
    pub following: u64,
    pub created_at: String,
    pub updated_at: String,
}

/// The session token of the chat service, with the flags that come with it.
#[derive(Debug)]
pub struct GithubCopilotAuth {
    pub annotations_enabled: bool,
    pub chat_enabled: bool,
    pub chat_jetbrains_enabled: bool,
    pub code_quote_enabled: bool,
    pub copilot_ide_agent_chat_gpt4_small_prompt: bool,
    pub copilotignore_enabled: bool,
    pub expires_at: u64,
    pub intellij_editor_fetcher: bool,
    pub prompt_8k: bool,
    pub public_suggestions: String,
    pub refresh_in: u64,
    pub sku: String,
    pub snippy_load_test_enabled: bool,
    pub telemetry: String,
    pub token: String,
    pub tracking_id: String,
    pub vsc_electron_fetcher: bool,
    pub vsc_panel_v2: bool,
}

/// Everything a finished login yields.
#[derive(Debug)]
pub struct GithubAuth {
    pub user: GithubUserData,
    pub token: GitHubDeviceTokenResponse,
    pub copilot_auth: GithubCopilotAuth,
}

impl GitHubDeviceLoginResponse {
    /// Whether the members of an object are those of the answer to a login request: each member
    /// named here is there and of its type, but for those that may be absent or
    /// `null`. Other members are not looked at.
    pub open spec fn describes(fields: Seq<(Seq<char>, JsonModel)>) -> bool {
        &&& unsigned_member(fields, "interval"@) is Some
        &&& text_member(fields, "user_code"@) is Some
        &&& unsigned_member(fields, "expires_in"@) is Some
        &&& text_member(fields, "verification_uri"@) is Some
        &&& text_member(fields, "device_code"@) is Some
    }

    /// Whether this is what the members of an object say.
    pub open spec fn reads_as(&self, fields: Seq<(Seq<char>, JsonModel)>) -> bool {
        &&& unsigned_member(fields, "interval"@) == Some(self.interval)
        &&& text_member(fields, "user_code"@) == Some(self.user_code@)
        &&& unsigned_member(fields, "expires_in"@) == Some(self.expires_in)
        &&& text_member(fields, "verification_uri"@) == Some(self.verification_uri@)
        &&& text_member(fields, "device_code"@) == Some(self.device_code@)
    }

    /// Reads the answer to a login request from the members of an object.
    pub fn from_fields(fields: &Vec<JsonField>) -> (res: Option<GitHubDeviceLoginResponse>)
        ensures
            match res {
                Some(read) => read.reads_as(fields_view(fields@)),
                None => !GitHubDeviceLoginResponse::describes(fields_view(fields@)),
            },
    {
        let interval = match unsigned_member_of(fields, "interval") {
            Some(value) => value,
            None => {
                return None;
            },
        };
        let user_code = match text_member_of(fields, "user_code") {
            Some(value) => value,
            None => {
                return None;
            },
        };
        let expires_in = match unsigned_member_of(fields, "expires_in") {
            Some(value) => value,
            None => {
                return None;
            },
        };
        let verification_uri = match text_member_of(fields, "verification_uri") {
            Some(value) => value,
            None => {
                return None;
            },
        };
        let device_code = match text_member_of(fields, "device_code") {
            Some(value) => value,
            None => {
                return None;
            },
        };
        Some(GitHubDeviceLoginResponse { interval, user_code, expires_in, verification_uri, device_code })
    }

    /// Whether a text is a JSON object that describes the answer to a login request.
    pub open spec fn described_in(text: Seq<u8>) -> bool {
        match object_of(text) {
            Some(fields) => GitHubDeviceLoginResponse::describes(fields),
            None => false,
        }
    }

    /// Whether this is what a text says: the text is a JSON object, and this
    /// is what its members say.
    pub open spec fn reads_from(&self, text: Seq<u8>) -> bool {
        match object_of(text) {
            Some(fields) => self.reads_as(fields),
            None => false,
        }
    }

    /// Reads the answer to a login request from a JSON text.
    pub fn from_json(text: &[u8]) -> (res: Option<GitHubDeviceLoginResponse>)
        ensures
            match res {
                Some(read) => read.reads_from(text@),
                None => !GitHubDeviceLoginResponse::described_in(text@),
            },
    {
        match parse_object(text) {
            Some(fields) => GitHubDeviceLoginResponse::from_fields(&fields),
            None => None,
        }
    }
}

impl GitHubDeviceTokenResponse {
    /// Whether the members of an object are those of a token: each member
    /// named here is there and of its type, but for those that may be absent or
    /// `null`. Other members are not looked at.
    pub open spec fn describes(fields: Seq<(Seq<char>, JsonModel)>) -> bool {
        &&& text_member(fields, "access_token"@) is Some
        &&& text_member(fields, "token_type"@) is Some
        &&& text_member(fields, "scope"@) is Some
    }

    /// Whether this is what the members of an object say.
    pub open spec fn reads_as(&self, fields: Seq<(Seq<char>, JsonModel)>) -> bool {
        &&& text_member(fields, "access_token"@) == Some(self.access_token@)
        &&& text_member(fields, "token_type"@) == Some(self.token_type@)
        &&& text_member(fields, "scope"@) == Some(self.scope@)
    }

    /// Reads a token from the members of an object.
    pub fn from_fields(fields: &Vec<JsonField>) -> (res: Option<GitHubDeviceTokenResponse>)
        ensures
            match res {
                Some(read) => read.reads_as(fields_view(fields@)),
                None => !GitHubDeviceTokenResponse::describes(fields_view(fields@)),
            },
    {
        let access_token = match text_member_of(fields, "access_token") {
            Some(value) => value,
            None => {
                return None;
            },
        };
        let token_type = match text_member_of(fields, "token_type") {
            Some(value) => value,
            None => {
                return None;
            },
        };
        let scope = match text_member_of(fields, "scope") {
            Some(value) => value,
            None => {
                return None;
            },
        };
        Some(GitHubDeviceTokenResponse { access_token, token_type, scope })
    }

    /// Whether a text is a JSON object that describes a token.
    pub open spec fn described_in(text: Seq<u8>) -> bool {
        match object_of(text) {
            Some(fields) => GitHubDeviceTokenResponse::describes(fields),
            None => false,
        }
    }

    /// Whether this is what a text says: the text is a JSON object, and this
    /// is what its members say.
    pub open spec fn reads_from(&self, text: Seq<u8>) -> bool {
        match object_of(text) {
            Some(fields) => self.reads_as(fields),
            None => false,
        }
    }

    /// Reads a token from a JSON text.
    pub fn from_json(text: &[u8]) -> (res: Option<GitHubDeviceTokenResponse>)
        ensures
            match res {
                Some(read) => read.reads_from(text@),
                None => !GitHubDeviceTokenResponse::described_in(text@),
            },
    {
        match parse_object(text) {
            Some(fields) => GitHubDeviceTokenResponse::from_fields(&fields),
            None => None,
        }
    }
}

impl GithubUserData {
    /// Whether the members of an object are those of a profile: each member
    /// named here is there and of its type, but for those that may be absent or
    /// `null`. Other members are not looked at.
    pub open spec fn describes(fields: Seq<(Seq<char>, JsonModel)>) -> bool {
        &&& text_member(fields, "login"@) is Some
        &&& unsigned_member(fields, "id"@) is Some
        &&& text_member(fields, "node_id"@) is Some
        &&& text_member(fields, "avatar_url"@) is Some
        &&& text_member(fields, "gravatar_id"@) is Some
        &&& text_member(fields, "url"@) is Some
        &&& text_member(fields, "html_url"@) is Some
        &&& text_member(fields, "followers_url"@) is Some
        &&& text_member(fields, "following_url"@) is Some
        &&& text_member(fields, "gists_url"@) is Some
        &&& text_member(fields, "starred_url"@) is Some
        &&& text_member(fields, "subscriptions_url"@) is Some
        &&& text_member(fields, "organizations_url"@) is Some
        &&& text_member(fields, "repos_url"@) is Some
        &&& text_member(fields, "events_url"@) is Some
        &&& text_member(fields, "received_events_url"@) is Some
        &&& text_member(fields, "type"@) is Some
        &&& flag_member(fields, "site_admin"@) is Some
        &&& text_member(fields, "name"@) is Some
        &&& optional_text(fields, "company"@) is Some
        &&& text_member(fields, "blog"@) is Some
        &&& text_member(fields, "location"@) is Some
        &&& optional_text(fields, "email"@) is Some
        &&& optional_flag(fields, "hireable"@) is Some
        &&& text_member(fields, "bio"@) is Some
        &&& optional_text(fields, "twitter_username"@) is Some
        &&& unsigned_member(fields, "public_repos"@) is Some
        &&& unsigned_member(fields, "public_gists"@) is Some
        &&& unsigned_member(fields, "followers"@) is Some
        &&& unsigned_member(fields, "following"@) is Some
        &&& text_member(fields, "created_at"@) is Some
        &&& text_member(fields, "updated_at"@) is Some
    }

    /// Whether this is what the members of an object say.
    pub open spec fn reads_as(&self, fields: Seq<(Seq<char>, JsonModel)>) -> bool {
        &&& text_member(fields, "login"@) == Some(self.login@)
        &&& unsigned_member(fields, "id"@) == Some(self.id)
        &&& text_member(fields, "node_id"@) == Some(self.node_id@)
        &&& text_member(fields, "avatar_url"@) == Some(self.avatar_url@)
        &&& text_member(fields, "gravatar_id"@) == Some(self.gravatar_id@)
        &&& text_member(fields, "url"@) == Some(self.url@)
        &&& text_member(fields, "html_url"@) == Some(self.html_url@)
        &&& text_member(fields, "followers_url"@) == Some(self.followers_url@)
        &&& text_member(fields, "following_url"@) == Some(self.following_url@)
        &&& text_member(fields, "gists_url"@) == Some(self.gists_url@)
        &&& text_member(fields, "starred_url"@) == Some(self.starred_url@)
        &&& text_member(fields, "subscriptions_url"@) == Some(self.subscriptions_url@)
        &&& text_member(fields, "organizations_url"@) == Some(self.organizations_url@)
        &&& text_member(fields, "repos_url"@) == Some(self.repos_url@)
        &&& text_member(fields, "events_url"@) == Some(self.events_url@)
        &&& text_member(fields, "received_events_url"@) == Some(self.received_events_url@)
        &&& text_member(fields, "type"@) == Some(self.type_@)
        &&& flag_member(fields, "site_admin"@) == Some(self.site_admin)
        &&& text_member(fields, "name"@) == Some(self.name@)
        &&& optional_text(fields, "company"@) == Some(text_view(self.company))
        &&& text_member(fields, "blog"@) == Some(self.blog@)
        &&& text_member(fields, "location"@) == Some(self.location@)
        &&& optional_text(fields, "email"@) == Some(text_view(self.email))
        &&& optional_flag(fields, "hireable"@) == Some(self.hireable)
        &&& text_member(fields, "bio"@) == Some(self.bio@)
        &&& optional_text(fields, "twitter_username"@) == Some(text_view(self.twitter_username))
        &&& unsigned_member(fields, "public_repos"@) == Some(self.public_repos)
        &&& unsigned_member(fields, "public_gists"@) == Some(self.public_gists)
        &&& unsigned_member(fields, "followers"@) == Some(self.followers)
        &&& unsigned_member(fields, "following"@) == Some(self.following)
        &&& text_member(fields, "created_at"@) == Some(self.created_at@)
        &&& text_member(fields, "updated_at"@) == Some(self.updated_at@)
    }

    /// Reads a profile from the members of an object.
    pub fn from_fields(fields: &Vec<JsonField>) -> (res: Option<GithubUserData>)
        ensures
            match res {
                Some(read) => read.reads_as(fields_view(fields@)),
                None => !GithubUserData::describes(fields_view(fields@)),
            },
    {
        let login = match text_member_of(fields, "login") {
            Some(value) => value,
            None => {
                return None;
            },
        };
        let id = match unsigned_member_of(fields, "id") {
            Some(value) => value,
            None => {
                return None;
            },
        };
        let node_id = match text_member_of(fields, "node_id") {
            Some(value) => value,
            None => {
                return None;
            },
        };
        let avatar_url = match text_member_of(fields, "avatar_url") {
            Some(value) => value,
            None => {
                return None;
            },
        };
        let gravatar_id = match text_member_of(fields, "gravatar_id") {
            Some(value) => value,
            None => {
                return None;
            },
        };
        let url = match text_member_of(fields, "url") {
            Some(value) => value,
            None => {
                return None;
            },
        };
        let html_url = match text_member_of(fields, "html_url") {
            Some(value) => value,
            None => {
                return None;
            },
        };
        let followers_url = match text_member_of(fields, "followers_url") {
            Some(value) => value,
            None => {
                return None;
            },
        };
        let following_url = match text_member_of(fields, "following_url") {
            Some(value) => value,
            None => {
                return None;
            },
        };
        let gists_url = match text_member_of(fields, "gists_url") {
            Some(value) => value,
            None => {
                return None;
            },
        };
        let starred_url = match text_member_of(fields, "starred_url") {
            Some(value) => value,
            None => {
                return None;
            },
        };
        let subscriptions_url = match text_member_of(fields, "subscriptions_url") {
            Some(value) => value,
            None => {
                return None;
            },
        };
        let organizations_url = match text_member_of(fields, "organizations_url") {
            Some(value) => value,
            None => {
                return None;
            },
        };
        let repos_url = match text_member_of(fields, "repos_url") {
            Some(value) => value,
            None => {
                return None;
            },
        };
        let events_url = match text_member_of(fields, "events_url") {
            Some(value) => value,
            None => {
                return None;
            },
        };
        let received_events_url = match text_member_of(fields, "received_events_url") {
            Some(value) => value,
            None => {
                return None;
            },
        };
        let type_ = match text_member_of(fields, "type") {
            Some(value) => value,
            None => {
                return None;
            },
        };
        let site_admin = match flag_member_of(fields, "site_admin") {
            Some(value) => value,
            None => {
                return None;
            },
        };
        let name = match text_member_of(fields, "name") {
            Some(value) => value,
            None => {
                return None;
            },
        };
        let company = match optional_text_of(fields, "company") {
            Some(value) => value,
            None => {
                return None;
            },
        };
        let blog = match text_member_of(fields, "blog") {
            Some(value) => value,
            None => {
                return None;
            },
        };
        let location = match text_member_of(fields, "location") {
            Some(value) => value,
            None => {
                return None;
            },
        };
        let email = match optional_text_of(fields, "email") {
            Some(value) => value,
            None => {
                return None;
            },
        };
        let hireable = match optional_flag_of(fields, "hireable") {
            Some(value) => value,
            None => {
                return None;
            },
        };
        let bio = match text_member_of(fields, "bio") {
            Some(value) => value,
            None => {
                return None;
            },
        };
        let twitter_username = match optional_text_of(fields, "twitter_username") {
            Some(value) => value,
            None => {
                return None;
            },
        };
        let public_repos = match unsigned_member_of(fields, "public_repos") {
            Some(value) => value,
            None => {
                return None;
            },
        };
        let public_gists = match unsigned_member_of(fields, "public_gists") {
            Some(value) => value,
            None => {
                return None;
            },
        };
        let followers = match unsigned_member_of(fields, "followers") {
            Some(value) => value,
            None => {
                return None;
            },
        };
        let following = match unsigned_member_of(fields, "following") {
            Some(value) => value,
            None => {
                return None;
            },
        };
        let created_at = match text_member_of(fields, "created_at") {
            Some(value) => value,
            None => {
                return None;
            },
        };
        let updated_at = match text_member_of(fields, "updated_at") {
            Some(value) => value,
            None => {
                return None;
            },
        };
        Some(GithubUserData { login, id, node_id, avatar_url, gravatar_id, url, html_url, followers_url, following_url, gists_url, starred_url, subscriptions_url, organizations_url, repos_url, events_url, received_events_url, type_, site_admin, name, company, blog, location, email, hireable, bio, twitter_username, public_repos, public_gists, followers, following, created_at, updated_at })
    }

    /// Whether a text is a JSON object that describes a profile.
    pub open spec fn described_in(text: Seq<u8>) -> bool {
        match object_of(text) {
            Some(fields) => GithubUserData::describes(fields),
            None => false,
        }
    }

    /// Whether this is what a text says: the text is a JSON object, and this
    /// is what its members say.
    pub open spec fn reads_from(&self, text: Seq<u8>) -> bool {
        match object_of(text) {
            Some(fields) => self.reads_as(fields),
            None => false,
        }
    }

    /// Reads a profile from a JSON text.
    pub fn from_json(text: &[u8]) -> (res: Option<GithubUserData>)
        ensures
            match res {
                Some(read) => read.reads_from(text@),
                None => !GithubUserData::described_in(text@),
            },
    {
        match parse_object(text) {
            Some(fields) => GithubUserData::from_fields(&fields),
            None => None,
        }
    }
}

impl GithubCopilotAuth {
    /// Whether the members of an object are those of a session token: each member
    /// named here is there and of its type, but for those that may be absent or
    /// `null`. Other members are not looked at.
    pub open spec fn describes(fields: Seq<(Seq<char>, JsonModel)>) -> bool {
        &&& flag_member(fields, "annotations_enabled"@) is Some
        &&& flag_member(fields, "chat_enabled"@) is Some
        &&& flag_member(fields, "chat_jetbrains_enabled"@) is Some
        &&& flag_member(fields, "code_quote_enabled"@) is Some
        &&& flag_member(fields, "copilot_ide_agent_chat_gpt4_small_prompt"@) is Some
        &&& flag_member(fields, "copilotignore_enabled"@) is Some
        &&& unsigned_member(fields, "expires_at"@) is Some
        &&& flag_member(fields, "intellij_editor_fetcher"@) is Some
        &&& flag_member(fields, "prompt_8k"@) is Some
        &&& text_member(fields, "public_suggestions"@) is Some
        &&& unsigned_member(fields, "refresh_in"@) is Some
        &&& text_member(fields, "sku"@) is Some
        &&& flag_member(fields, "snippy_load_test_enabled"@) is Some
        &&& text_member(fields, "telemetry"@) is Some
        &&& text_member(fields, "token"@) is Some
        &&& text_member(fields, "tracking_id"@) is Some
        &&& flag_member(fields, "vsc_electron_fetcher"@) is Some
        &&& flag_member(fields, "vsc_panel_v2"@) is Some
    }

    /// Whether this is what the members of an object say.
    pub open spec fn reads_as(&self, fields: Seq<(Seq<char>, JsonModel)>) -> bool {
        &&& flag_member(fields, "annotations_enabled"@) == Some(self.annotations_enabled)
        &&& flag_member(fields, "chat_enabled"@) == Some(self.chat_enabled)
        &&& flag_member(fields, "chat_jetbrains_enabled"@) == Some(self.chat_jetbrains_enabled)
        &&& flag_member(fields, "code_quote_enabled"@) == Some(self.code_quote_enabled)
        &&& flag_member(fields, "copilot_ide_agent_chat_gpt4_small_prompt"@) == Some(self.copilot_ide_agent_chat_gpt4_small_prompt)
        &&& flag_member(fields, "copilotignore_enabled"@) == Some(self.copilotignore_enabled)
        &&& unsigned_member(fields, "expires_at"@) == Some(self.expires_at)
        &&& flag_member(fields, "intellij_editor_fetcher"@) == Some(self.intellij_editor_fetcher)
        &&& flag_member(fields, "prompt_8k"@) == Some(self.prompt_8k)
        &&& text_member(fields, "public_suggestions"@) == Some(self.public_suggestions@)
        &&& unsigned_member(fields, "refresh_in"@) == Some(self.refresh_in)
        &&& text_member(fields, "sku"@) == Some(self.sku@)
        &&& flag_member(fields, "snippy_load_test_enabled"@) == Some(self.snippy_load_test_enabled)
        &&& text_member(fields, "telemetry"@) == Some(self.telemetry@)
        &&& text_member(fields, "token"@) == Some(self.token@)
        &&& text_member(fields, "tracking_id"@) == Some(self.tracking_id@)
        &&& flag_member(fields, "vsc_electron_fetcher"@) == Some(self.vsc_electron_fetcher)
        &&& flag_member(fields, "vsc_panel_v2"@) == Some(self.vsc_panel_v2)
    }

    /// Reads a session token from the members of an object.
    pub fn from_fields(fields: &Vec<JsonField>) -> (res: Option<GithubCopilotAuth>)
        ensures
            match res {
                Some(read) => read.reads_as(fields_view(fields@)),
                None => !GithubCopilotAuth::describes(fields_view(fields@)),
            },
    {
        let annotations_enabled = match flag_member_of(fields, "annotations_enabled") {
            Some(value) => value,
            None => {
                return None;
            },
        };
        let chat_enabled = match flag_member_of(fields, "chat_enabled") {
            Some(value) => value,
            None => {
                return None;
            },
        };
        let chat_jetbrains_enabled = match flag_member_of(fields, "chat_jetbrains_enabled") {
            Some(value) => value,
            None => {
                return None;
            },
        };
        let code_quote_enabled = match flag_member_of(fields, "code_quote_enabled") {
            Some(value) => value,
            None => {
                return None;
            },
        };
        let copilot_ide_agent_chat_gpt4_small_prompt = match flag_member_of(fields, "copilot_ide_agent_chat_gpt4_small_prompt") {
            Some(value) => value,
            None => {
                return None;
            },
        };
        let copilotignore_enabled = match flag_member_of(fields, "copilotignore_enabled") {
            Some(value) => value,
            None => {
                return None;
            },
        };
        let expires_at = match unsigned_member_of(fields, "expires_at") {
            Some(value) => value,
            None => {
                return None;
            },
        };
        let intellij_editor_fetcher = match flag_member_of(fields, "intellij_editor_fetcher") {
            Some(value) => value,
            None => {
                return None;
            },
        };
        let prompt_8k = match flag_member_of(fields, "prompt_8k") {
            Some(value) => value,
            None => {
                return None;
            },
        };
        let public_suggestions = match text_member_of(fields, "public_suggestions") {
            Some(value) => value,
            None => {
                return None;
            },
        };
        let refresh_in = match unsigned_member_of(fields, "refresh_in") {
            Some(value) => value,
            None => {
                return None;
            },
        };
        let sku = match text_member_of(fields, "sku") {
            Some(value) => value,
            None => {
                return None;
            },
        };
        let snippy_load_test_enabled = match flag_member_of(fields, "snippy_load_test_enabled") {
            Some(value) => value,
            None => {
                return None;
            },
        };
        let telemetry = match text_member_of(fields, "telemetry") {
            Some(value) => value,
            None => {
                return None;
            },
        };
        let token = match text_member_of(fields, "token") {
            Some(value) => value,
            None => {
                return None;
            },
        };
        let tracking_id = match text_member_of(fields, "tracking_id") {
            Some(value) => value,
            None => {
                return None;
            },
        };
        let vsc_electron_fetcher = match flag_member_of(fields, "vsc_electron_fetcher") {
            Some(value) => value,
            None => {
                return None;
            },
        };
        let vsc_panel_v2 = match flag_member_of(fields, "vsc_panel_v2") {
            Some(value) => value,
            None => {
                return None;
            },
        };
        Some(GithubCopilotAuth { annotations_enabled, chat_enabled, chat_jetbrains_enabled, code_quote_enabled, copilot_ide_agent_chat_gpt4_small_prompt, copilotignore_enabled, expires_at, intellij_editor_fetcher, prompt_8k, public_suggestions, refresh_in, sku, snippy_load_test_enabled, telemetry, token, tracking_id, vsc_electron_fetcher, vsc_panel_v2 })
    }

    /// Whether a text is a JSON object that describes a session token.
    pub open spec fn described_in(text: Seq<u8>) -> bool {
        match object_of(text) {
            Some(fields) => GithubCopilotAuth::describes(fields),
            None => false,
        }
    }

    /// Whether this is what a text says: the text is a JSON object, and this
    /// is what its members say.
    pub open spec fn reads_from(&self, text: Seq<u8>) -> bool {
        match object_of(text) {
            Some(fields) => self.reads_as(fields),
            None => false,
        }
    }

    /// Reads a session token from a JSON text.
    pub fn from_json(text: &[u8]) -> (res: Option<GithubCopilotAuth>)
        ensures
            match res {
                Some(read) => read.reads_from(text@),
                None => !GithubCopilotAuth::described_in(text@),
            },
    {
        match parse_object(text) {
            Some(fields) => GithubCopilotAuth::from_fields(&fields),
            None => None,
        }
    }
}

/// The word by which GitHub says that the user has not yet approved the
/// device: `authorization_pending`.
pub open spec fn pending_marker() -> Seq<u8> {
    seq![
        97u8, 117u8, 116u8, 104u8, 111u8, 114u8, 105u8, 122u8, 97u8, 116u8, 105u8, 111u8, 110u8,
        95u8, 112u8, 101u8, 110u8, 100u8, 105u8, 110u8, 103u8,
    ]
}

/// Whether an answer says that the user has not yet approved the device.
pub open spec fn is_pending(answer: Seq<u8>) -> bool {
    exists|at: int| matches_at(answer, pending_marker(), at)
}

/// The word by which GitHub says that the user has not yet approved the
/// device.
pub fn pending_marker_bytes() -> (bytes: Vec<u8>)
    ensures
        bytes@ == pending_marker(),
{
    let bytes: Vec<u8> = vec![
        97u8, 117u8, 116u8, 104u8, 111u8, 114u8, 105u8, 122u8, 97u8, 116u8, 105u8, 111u8, 110u8,
        95u8, 112u8, 101u8, 110u8, 100u8, 105u8, 110u8, 103u8,
    ];
    assert(bytes@ =~= pending_marker());
    bytes
}

/// Why a poll yields no token.
#[derive(Debug, Clone, Copy, PartialEq, Eq, Structural)]
pub enum PollError {
    /// The user has not yet approved the device.
    Pending,
    /// The answer is neither that nor a token.
    Malformed,
}

/// What to do after a poll.
#[derive(Debug)]
pub enum AuthStep {
    /// Wait for so many seconds, then poll again.
    Wait(u64),
    /// Go on with the token.
    Granted(GitHubDeviceTokenResponse),
    /// Give up: the answer cannot be read.
    Failed,
}

/// The message of a failed request for the profile.
pub open spec fn user_failure() -> Seq<char> {
    "Failed to authenticate with Github"@
}

/// The message of a failed request for the session token.
pub open spec fn copilot_failure() -> Seq<char> {
    "Failed to authenticate with Github Copilot"@
}

/// The message of a failed login request.
pub open spec fn login_failure() -> Seq<char> {
    "Failed to request the device login"@
}

/// The words that tell the user where to go with which code.
pub open spec fn login_prompt_of(uri: Seq<char>, code: Seq<char>) -> Seq<char> {
    "Please visit "@ + uri + " and enter the code "@ + code
}

/// Decides the steps of the device login.
pub struct AuthenticationManager {}

impl AuthenticationManager {
    /// A manager; it holds nothing.
    pub fn new() -> (manager: Self)
        ensures
            manager == (AuthenticationManager {}),
    {
        AuthenticationManager {}
    }

    /// Reads the answer to a login request.
    pub fn request_github_auth(&self, answer: &[u8]) -> (res: Result<
        GitHubDeviceLoginResponse,
        String,
    >)
        ensures
            match res {
                Ok(login) => login.reads_from(answer@),
                Err(message) => !GitHubDeviceLoginResponse::described_in(answer@) && message@
                    == login_failure(),
            },
    {
        match GitHubDeviceLoginResponse::from_json(answer) {
            Some(login) => Ok(login),
            None => Err("Failed to request the device login".to_owned()),
        }
    }

    /// The words that tell the user where to go with which code.
    pub fn login_prompt(&self, login: &GitHubDeviceLoginResponse) -> (text: String)
        ensures
            text@ == login_prompt_of(login.verification_uri@, login.user_code@),
    {
        let mut text: String = "Please visit ".to_owned();
        text.append(login.verification_uri.as_str());
        text.append(" and enter the code ");
        text.append(login.user_code.as_str());
        text
    }

    /// Reads the answer to a poll: the token, unless the user has not yet
    /// approved the device or the answer cannot be read.
    pub fn check_github_auth(&self, answer: &[u8]) -> (res: Result<
        GitHubDeviceTokenResponse,
        PollError,
    >)
        ensures
            match res {
                Ok(token) => !is_pending(answer@) && token.reads_from(answer@),
                Err(PollError::Pending) => is_pending(answer@),
                Err(PollError::Malformed) => !is_pending(answer@)
                    && !GitHubDeviceTokenResponse::described_in(answer@),
            },
    {
        let marker = pending_marker_bytes();
        if contains(answer, marker.as_slice()) {
            return Err(PollError::Pending);
        }
        match GitHubDeviceTokenResponse::from_json(answer) {
            Some(token) => Ok(token),
            None => Err(PollError::Malformed),
        }
    }

    /// Reads the answer to the request for the profile.
    pub fn gh_get_user(&self, success: bool, answer: &[u8]) -> (res: Result<GithubUserData, String>)
        ensures
            match res {
                Ok(user) => success && user.reads_from(answer@),
                Err(message) => !(success && GithubUserData::described_in(answer@)) && message@
                    == user_failure(),
            },
    {
        if success {
            match GithubUserData::from_json(answer) {
                Some(user) => {
                    return Ok(user);
                },
                None => {},
            }
        }
        Err("Failed to authenticate with Github".to_owned())
    }

    /// Reads the answer to the request for the session token.
    pub fn gh_copilot_authenticate(&self, success: bool, answer: &[u8]) -> (res: Result<
        GithubCopilotAuth,
        String,
    >)
        ensures
            match res {
                Ok(session) => success && session.reads_from(answer@),
                Err(message) => !(success && GithubCopilotAuth::described_in(answer@)) && message@
                    == copilot_failure(),
            },
    {
        if success {
            match GithubCopilotAuth::from_json(answer) {
                Some(session) => {
                    return Ok(session);
                },
                None => {},
            }
        }
        Err("Failed to authenticate with Github Copilot".to_owned())
    }

    /// Decides what to do after a poll: to go on with the token, to wait for
    /// as long as the login asks and poll again, or to give up.
    pub fn auth(&self, login: &GitHubDeviceLoginResponse, answer: &[u8]) -> (step: AuthStep)
        ensures
            match step {
                AuthStep::Wait(seconds) => is_pending(answer@) && seconds == login.interval,
                AuthStep::Granted(token) => !is_pending(answer@) && token.reads_from(answer@),
                AuthStep::Failed => !is_pending(answer@)
                    && !GitHubDeviceTokenResponse::described_in(answer@),
            },
    {
        match self.check_github_auth(answer) {
            Ok(token) => AuthStep::Granted(token),
            Err(PollError::Pending) => AuthStep::Wait(login.interval),
            Err(PollError::Malformed) => AuthStep::Failed,
        }
    }

    /// The token that the configuration holds, if it holds one: a token of
    /// type `bearer` without a scope.
    pub fn cache_auth(&self, config: &str) -> (res: Option<GitHubDeviceTokenResponse>)
        ensures
            match res {
                Some(token) => config@.len() > 0 && token.access_token@ == config@
                    && token.token_type@ == "bearer"@ && token.scope@ == ""@,
                None => config@.len() == 0,
            },
    {
        if config.is_empty() {
            return None;
        }
        Some(
            GitHubDeviceTokenResponse {
                access_token: config.to_owned(),
                token_type: "bearer".to_owned(),
                scope: "".to_owned(),
            },
        )
    }
}

} // verus!
