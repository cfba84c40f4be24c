//! Names and addresses of the real-time channels of a user, and the shapes
//! of what travels over them. The requests themselves are made elsewhere.
//!
//! A user has three channels:
//! `user.{id}.sync`, `user.{id}.devices` and `user.{id}.notifications`.

use vstd::prelude::*;
use vstd::string::StringExecFns;

verus! {

/// The key used where none is configured.
pub const DEFAULT_KEY: &'static str = "demo";

/// The host that is asked where none is configured.
pub const DEFAULT_ORIGIN: &'static str = "ps.pndsn.com";

/// The keys and the host of the messaging service.
#[derive(Debug, Clone)]
pub struct PubNubConfig {
    pub publish_key: String,
    pub subscribe_key: String,
    pub origin: String,
}

impl PubNubConfig {
    /// A configuration from the keys that the environment holds; a key
    /// that is missing is `DEFAULT_KEY`. The host is `DEFAULT_ORIGIN`.
    pub fn from_keys(publish_key: Option<String>, subscribe_key: Option<String>) -> (config: Self)
        ensures
            config.publish_key@ == match publish_key {
                Some(key) => key@,
                None => DEFAULT_KEY@,
            },
            config.subscribe_key@ == match subscribe_key {
                Some(key) => key@,
                None => DEFAULT_KEY@,
            },
            config.origin@ == DEFAULT_ORIGIN@,
    {
        PubNubConfig {
            publish_key: match publish_key {
                Some(key) => key,
                None => DEFAULT_KEY.to_owned(),
            },
            subscribe_key: match subscribe_key {
                Some(key) => key,
                None => DEFAULT_KEY.to_owned(),
            },
            origin: DEFAULT_ORIGIN.to_owned(),
        }
    }
}

impl Default for PubNubConfig {
    /// The configuration with no key set.
    fn default() -> (config: Self)
        ensures
            config.publish_key@ == DEFAULT_KEY@,
            config.subscribe_key@ == DEFAULT_KEY@,
            config.origin@ == DEFAULT_ORIGIN@,
    {
        PubNubConfig::from_keys(None, None)
    }
}

/// The answer to a publish request.
#[derive(Debug, Clone)]
pub struct PublishResponse {
    pub status: i32,
    pub timetoken: String,
}

/// Who is present on a channel.
#[derive(Debug, Clone)]
pub struct HereNowResponse {
    pub status: i32,
    pub message: String,
    pub occupancy: usize,
    pub uuids: Vec<String>,
}

/// What can go wrong with a request.
#[derive(Debug, Clone)]
pub enum PubNubError {
    NetworkError(String),
    SerializationError(String),
    DeserializationError(String),
    ChannelError(String),
}

impl PubNubError {
    /// The text that describes the error.
    pub open spec fn message(&self) -> Seq<char> {
        match self {
            PubNubError::NetworkError(detail) => "Network error: "@ + detail@,
            PubNubError::SerializationError(detail) => "Serialization error: "@ + detail@,
            PubNubError::DeserializationError(detail) => "Deserialization error: "@ + detail@,
            PubNubError::ChannelError(detail) => "Channel error: "@ + detail@,
        }
    }

    /// Describes the error in words.
    pub fn to_string(&self) -> (text: String)
        ensures
            text@ == self.message(),
    {
        match self {
            PubNubError::NetworkError(detail) => String::from_str("Network error: ").concat(
                detail.as_str(),
            ),
            PubNubError::SerializationError(detail) => String::from_str(
                "Serialization error: ",
            ).concat(detail.as_str()),
            PubNubError::DeserializationError(detail) => String::from_str(
                "Deserialization error: ",
            ).concat(detail.as_str()),
            PubNubError::ChannelError(detail) => String::from_str("Channel error: ").concat(
                detail.as_str(),
            ),
        }
    }
}

/// What a device can play.
#[derive(Debug, Clone)]
pub struct DeviceCapabilities {
    pub max_resolution: String,
    pub hdr_support: Vec<String>,
    pub audio_codecs: Vec<String>,
    pub can_cast: bool,
}

/// A command sent to a device.
#[derive(Debug, Clone)]
pub enum RemoteCommand {
    Play,
    Pause,
    Seek { position_seconds: u32 },
    Cast { content_id: String },
}

impl RemoteCommand {
    /// The name the command carries on the wire.
    pub open spec fn wire_name(&self) -> Seq<char> {
        match self {
            RemoteCommand::Play => "play"@,
            RemoteCommand::Pause => "pause"@,
            RemoteCommand::Seek { .. } => "seek"@,
            RemoteCommand::Cast { .. } => "cast"@,
        }
    }

    /// The name the command carries on the wire.
    pub fn command_type(&self) -> (name: &'static str)
        ensures
            name@ == self.wire_name(),
    {
        match self {
            RemoteCommand::Play => "play",
            RemoteCommand::Pause => "pause",
            RemoteCommand::Seek { .. } => "seek",
            RemoteCommand::Cast { .. } => "cast",
        }
    }
}

/// The name of a channel of a user.
pub open spec fn channel_name(user_id: Seq<char>, kind: Seq<char>) -> Seq<char> {
    "user."@ + user_id + "."@ + kind
}

/// The part of every address up to the path: `https://` and the host.
pub open spec fn base_url(origin: Seq<char>) -> Seq<char> {
    "https://"@ + origin
}

/// One user's device, as the messaging service knows it.
#[derive(Debug, Clone)]
pub struct PubNubClient {
    pub config: PubNubConfig,
    pub user_id: String,
    pub device_id: String,
}

impl PubNubClient {
    /// The client of a device of a user.
    pub fn new(config: PubNubConfig, user_id: String, device_id: String) -> (client: Self)
        ensures
            client.config == config,
            client.user_id == user_id,
            client.device_id == device_id,
    {
        PubNubClient { config, user_id, device_id }
    }

    fn channel(&self, kind: &str) -> (name: String)
        ensures
            name@ == channel_name(self.user_id@, kind@),
    {
        let mut name = String::from_str("user.");
        name.append(self.user_id.as_str());
        name.append(".");
        name.append(kind);
        name
    }

    /// The channel for watchlist, preferences and progress.
    pub fn sync_channel(&self) -> (name: String)
        ensures
            name@ == channel_name(self.user_id@, "sync"@),
    {
        self.channel("sync")
    }

    /// The channel for device presence.
    pub fn devices_channel(&self) -> (name: String)
        ensures
            name@ == channel_name(self.user_id@, "devices"@),
    {
        self.channel("devices")
    }

    /// The channel for alerts and recommendations.
    pub fn notifications_channel(&self) -> (name: String)
        ensures
            name@ == channel_name(self.user_id@, "notifications"@),
    {
        self.channel("notifications")
    }

    /// The address a message for `channel` is posted to.
    pub fn publish_url(&self, channel: &str) -> (url: String)
        ensures
            url@ == base_url(self.config.origin@) + "/publish/"@ + self.config.publish_key@ + "/"@
                + self.config.subscribe_key@ + "/0/"@ + channel@ + "/0"@,
    {
        let mut url = String::from_str("https://");
        url.append(self.config.origin.as_str());
        url.append("/publish/");
        url.append(self.config.publish_key.as_str());
        url.append("/");
        url.append(self.config.subscribe_key.as_str());
        url.append("/0/");
        url.append(channel);
        url.append("/0");
        url
    }

    /// The address that tells who is present on `channel`.
    pub fn here_now_url(&self, channel: &str) -> (url: String)
        ensures
            url@ == base_url(self.config.origin@) + "/v2/presence/sub-key/"@
                + self.config.subscribe_key@ + "/channel/"@ + channel@,
    {
        let mut url = String::from_str("https://");
        url.append(self.config.origin.as_str());
        url.append("/v2/presence/sub-key/");
        url.append(self.config.subscribe_key.as_str());
        url.append("/channel/");
        url.append(channel);
        url
    }

    /// The address that takes the heartbeat of this device.
    pub fn heartbeat_url(&self) -> (url: String)
        ensures
            url@ == base_url(self.config.origin@) + "/v2/presence/sub-key/"@
                + self.config.subscribe_key@ + "/channel/"@ + channel_name(
                self.user_id@,
                "devices"@,
            ) + "/heartbeat"@,
    {
        let channel = self.devices_channel();
        let mut url = self.here_now_url(channel.as_str());
        url.append("/heartbeat");
        url
    }

    /// The address that returns the past messages of `channel`.
    pub fn history_url(&self, channel: &str) -> (url: String)
        ensures
            url@ == base_url(self.config.origin@) + "/v2/history/sub-key/"@
                + self.config.subscribe_key@ + "/channel/"@ + channel@,
    {
        let mut url = String::from_str("https://");
        url.append(self.config.origin.as_str());
        url.append("/v2/history/sub-key/");
        url.append(self.config.subscribe_key.as_str());
        url.append("/channel/");
        url.append(channel);
        url
    }
}

} // verus!
