//! What the persistence sink is handed: the place it is reached at, decided
//! from its settings, and the row that stands for each event.

use crate::calendar::ymd_slash_text;
use crate::event::{EventInfo, EventInfoView};
use crate::number::{parse_u32, parse_u32_text};
use vstd::prelude::*;

verus! {

/// The port of the database where the settings name none.
pub const DEFAULT_PORT: u16 = 3306;

/// The settings of the sink as they were found, each absent where it was not
/// set.
#[derive(Clone, Debug, PartialEq, Eq)]
pub struct SinkSettings {
    pub user: Option<String>,
    pub password: Option<String>,
    pub db_name: Option<String>,
    pub socket: Option<String>,
    pub host: Option<String>,
    pub port: Option<String>,
}

/// Where and as whom the sink is reached.
#[derive(Clone, Debug, PartialEq, Eq)]
pub enum SinkTarget {
    /// Through a local socket.
    Socket { user: String, password: String, db_name: String, socket: String },
    /// Over the network.
    Tcp { user: String, password: String, db_name: String, host: String, port: u16 },
}

/// Why the settings name no sink.
#[derive(Clone, Copy, Debug, PartialEq, Eq, Structural)]
pub enum SinkConfigError {
    /// The user, the password or the name of the database is not set.
    MissingCredentials,
    /// Neither a socket nor a host is set.
    MissingHost,
    /// The port is no number from 0 to 65535.
    InvalidPort,
}

impl SinkConfigError {
    /// The error in words.
    pub fn message(&self) -> (message: &'static str)
        ensures
            message@ == match *self {
                SinkConfigError::MissingCredentials => "DB param environ not set"@,
                SinkConfigError::MissingHost => "DB_HOST must be set"@,
                SinkConfigError::InvalidPort => "DB_PORT must be a valid number"@,
            },
    {
        match self {
            SinkConfigError::MissingCredentials => "DB param environ not set",
            SinkConfigError::MissingHost => "DB_HOST must be set",
            SinkConfigError::InvalidPort => "DB_PORT must be a valid number",
        }
    }
}

/// The port that `text` names: a number from 0 to 65535.
pub open spec fn port_of_text(text: Seq<char>) -> Option<u16> {
    match parse_u32_text(text) {
        Some(port) => if port <= u16::MAX {
            Some(port as u16)
        } else {
            None
        },
        None => None,
    }
}

/// The port that the settings name: the default where they name none.
pub open spec fn port_of(port: Option<String>) -> Option<u16> {
    match port {
        Some(text) => port_of_text(text@),
        None => Some(DEFAULT_PORT),
    }
}

/// The sink that the settings name. The credentials are asked for first; a
/// socket is preferred to a host; the port is read only where a host is used.
pub open spec fn sink_target_of(settings: SinkSettings) -> Result<SinkTarget, SinkConfigError> {
    if settings.user is None || settings.password is None || settings.db_name is None {
        Err(SinkConfigError::MissingCredentials)
    } else if settings.socket is Some {
        Ok(
            SinkTarget::Socket {
                user: settings.user->0,
                password: settings.password->0,
                db_name: settings.db_name->0,
                socket: settings.socket->0,
            },
        )
    } else if settings.host is None {
        Err(SinkConfigError::MissingHost)
    } else {
        match port_of(settings.port) {
            Some(port) => Ok(
                SinkTarget::Tcp {
                    user: settings.user->0,
                    password: settings.password->0,
                    db_name: settings.db_name->0,
                    host: settings.host->0,
                    port,
                },
            ),
            None => Err(SinkConfigError::InvalidPort),
        }
    }
}

/// Reads a port.
pub fn parse_port(text: &str) -> (port: Option<u16>)
    ensures
        port == port_of_text(text@),
{
    match parse_u32(text) {
        Some(port) => if port <= 65535 {
            Some(port as u16)
        } else {
            None
        },
        None => None,
    }
}

/// Decides from the settings where the sink is reached, or why it cannot be.
pub fn sink_target(settings: SinkSettings) -> (target: Result<SinkTarget, SinkConfigError>)
    ensures
        target == sink_target_of(settings),
{
    let SinkSettings { user, password, db_name, socket, host, port } = settings;
    let (user, password, db_name) = match (user, password, db_name) {
        (Some(user), Some(password), Some(db_name)) => (user, password, db_name),
        _ => {
            return Err(SinkConfigError::MissingCredentials);
        },
    };
    match socket {
        Some(socket) => Ok(SinkTarget::Socket { user, password, db_name, socket }),
        None => {
            let host = match host {
                Some(host) => host,
                None => {
                    return Err(SinkConfigError::MissingHost);
                },
            };
            let port = match port {
                Some(text) => parse_port(text.as_str()),
                None => Some(DEFAULT_PORT),
            };
            match port {
                Some(port) => Ok(SinkTarget::Tcp { user, password, db_name, host, port }),
                None => Err(SinkConfigError::InvalidPort),
            }
        },
    }
}

/// The row of an event: its seven fields as texts.
#[derive(Clone, Debug, PartialEq, Eq)]
pub struct EventRow {
    pub name: String,
    pub organizer: String,
    pub start_date: String,
    pub end_date: String,
    pub open_time: String,
    pub revenue: String,
    pub fee: String,
}

/// What an [`EventRow`] stands for in contracts.
pub struct EventRowView {
    pub name: Seq<char>,
    pub organizer: Seq<char>,
    pub start_date: Seq<char>,
    pub end_date: Seq<char>,
    pub open_time: Seq<char>,
    pub revenue: Seq<char>,
    pub fee: Seq<char>,
}

impl View for EventRow {
    type V = EventRowView;

    open spec fn view(&self) -> EventRowView {
        EventRowView {
            name: self.name@,
            organizer: self.organizer@,
            start_date: self.start_date@,
            end_date: self.end_date@,
            open_time: self.open_time@,
            revenue: self.revenue@,
            fee: self.fee@,
        }
    }
}

/// The row of an event: the texts as they are, the dates written as in
/// `2024/01/07`.
pub open spec fn row_of(event: EventInfoView) -> EventRowView {
    EventRowView {
        name: event.name,
        organizer: event.organizer,
        start_date: ymd_slash_text(event.start_date),
        end_date: ymd_slash_text(event.end_date),
        open_time: event.open_time,
        revenue: event.revenue,
        fee: event.fee,
    }
}

/// The row that the sink stores for an event.
pub fn event_row(event: &EventInfo) -> (row: EventRow)
    ensures
        row@ == row_of(event@),
{
    EventRow {
        name: event.name().to_owned(),
        organizer: event.organizer().to_owned(),
        start_date: event.start_date().format_ymd(),
        end_date: event.end_date().format_ymd(),
        open_time: event.open_time().to_owned(),
        revenue: event.revenue().to_owned(),
        fee: event.fee().to_owned(),
    }
}

} // verus!
