use vstd::prelude::*;
use crate::text::{contains_str, has_substring};

verus! {

/// Direction of a port: an input receives data, an output sends it.
#[derive(Debug, Clone, Copy, PartialEq, Eq, Hash, Structural)]
pub enum PortDirection {
    Input,
    Output,
}

impl PortDirection {
    pub fn as_str(&self) -> (r: &'static str)
        ensures
            r@ == (match self {
                PortDirection::Input => "input"@,
                PortDirection::Output => "output"@,
            }),
    {
        match self {
            PortDirection::Input => "input",
            PortDirection::Output => "output",
        }
    }
}

/// Kind of media a port carries.
#[derive(Debug, Clone, Copy, PartialEq, Eq, Hash, Structural)]
pub enum MediaType {
    Audio,
    Midi,
    Video,
    Unknown,
}

/// The media type that a port's `format.dsp` property announces.
pub open spec fn format_media(format: Option<Seq<char>>) -> MediaType {
    match format {
        Some(s) => if has_substring(s, "midi"@) {
            MediaType::Midi
        } else if has_substring(s, "video"@) {
            MediaType::Video
        } else if has_substring(s, "audio"@) || has_substring(s, "32 bit float"@) {
            MediaType::Audio
        } else {
            MediaType::Unknown
        },
        None => MediaType::Unknown,
    }
}

impl MediaType {
    pub fn as_str(&self) -> (r: &'static str)
        ensures
            r@ == (match self {
                MediaType::Audio => "audio"@,
                MediaType::Midi => "midi"@,
                MediaType::Video => "video"@,
                MediaType::Unknown => "unknown"@,
            }),
    {
        match self {
            MediaType::Audio => "audio",
            MediaType::Midi => "midi",
            MediaType::Video => "video",
            MediaType::Unknown => "unknown",
        }
    }

    /// Reads the media type from a port's DSP format string.
    pub fn from_format_dsp(format: Option<&str>) -> (r: MediaType)
        ensures
            r == format_media(
                match format {
                    Some(s) => Some(s@),
                    None => None,
                },
            ),
    {
        match format {
            Some(s) => {
                if contains_str(s, "midi") {
                    MediaType::Midi
                } else if contains_str(s, "video") {
                    MediaType::Video
                } else if contains_str(s, "audio") || contains_str(s, "32 bit float") {
                    MediaType::Audio
                } else {
                    MediaType::Unknown
                }
            },
            None => MediaType::Unknown,
        }
    }
}

impl Default for MediaType {
    fn default() -> (r: MediaType)
        ensures
            r == MediaType::Audio,
    {
        MediaType::Audio
    }
}

/// State of a link between two ports.
#[derive(Debug, Clone, Copy, PartialEq, Eq, Hash, Structural)]
pub enum LinkState {
    Active,
    Paused,
    Error,
}

impl LinkState {
    pub fn as_str(&self) -> (r: &'static str)
        ensures
            r@ == (match self {
                LinkState::Active => "active"@,
                LinkState::Paused => "paused"@,
                LinkState::Error => "error"@,
            }),
    {
        match self {
            LinkState::Active => "active",
            LinkState::Paused => "paused",
            LinkState::Error => "error",
        }
    }
}

impl Default for LinkState {
    fn default() -> (r: LinkState)
        ensures
            r == LinkState::Active,
    {
        LinkState::Active
    }
}

/// Events sent from the service thread to the consumer.
#[derive(Debug, Clone)]
pub enum PwEvent {
    /// A node appeared in the registry.
    NodeAdded {
        id: u32,
        name: String,
        media_class: Option<String>,
        description: Option<String>,
        application_name: Option<String>,
    },
    /// An object with this id left the registry; it may have been a node.
    NodeRemoved { id: u32 },
    /// A port appeared in the registry.
    PortAdded {
        id: u32,
        node_id: u32,
        name: String,
        alias: Option<String>,
        direction: PortDirection,
        media_type: MediaType,
        channel: Option<String>,
    },
    /// An object with this id left the registry; it may have been a port.
    PortRemoved { id: u32 },
    /// A link between two ports appeared.
    LinkAdded {
        id: u32,
        output_node_id: u32,
        output_port_id: u32,
        input_node_id: u32,
        input_port_id: u32,
        state: LinkState,
    },
    /// An object with this id left the registry; it may have been a link.
    LinkRemoved { id: u32 },
    /// The state of a link changed.
    LinkStateChanged { id: u32, state: LinkState },
    /// The connection to the service is established.
    Connected,
    /// The connection to the service was lost or could not be made.
    Disconnected { reason: String },
    /// A command did not take effect.
    Error { message: String },
}

/// Commands sent from the consumer to the service thread.
#[derive(Debug, Clone, Copy, PartialEq, Eq, Structural)]
pub enum UiCommand {
    /// Create a link between two ports.
    CreateLink { output_port_id: u32, input_port_id: u32 },
    /// Delete an existing link.
    DeleteLink { link_id: u32 },
    /// Stop the service thread.
    Quit,
}

} // verus!
