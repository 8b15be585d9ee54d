use vstd::prelude::*;

use crate::claude::messages::opt_string;
use crate::json::{field, json_of, parse_json, str_of, u64_of, Json};
use crate::shared_models::opt_view;

verus! {

/// Times of a project, in milliseconds since the Unix epoch.
#[derive(Debug, Clone, Copy, PartialEq, Eq, Structural)]
pub struct ProjectTime {
    pub created: u64,
    pub updated: u64,
}

/// A project file.
#[derive(Debug, Clone, PartialEq)]
pub struct ProjectMetadata {
    pub id: String,
    pub worktree: String,
    pub vcs: Option<String>,
    pub time: ProjectTime,
}

/// Times of a session, in milliseconds since the Unix epoch.
#[derive(Debug, Clone, Copy, PartialEq, Eq, Structural)]
pub struct SessionTime {
    pub created: u64,
    pub updated: u64,
}

/// A session file. `parent_id` is set for a sub-session.
#[derive(Debug, Clone, PartialEq)]
pub struct SessionMetadata {
    pub id: String,
    pub slug: Option<String>,
    pub version: Option<String>,
    pub project_id: String,
    pub directory: String,
    pub parent_id: Option<String>,
    pub title: Option<String>,
    pub time: SessionTime,
}

/// Time of a message, in milliseconds since the Unix epoch.
#[derive(Debug, Clone, Copy, PartialEq, Eq, Structural)]
pub struct MessageTime {
    pub created: u64,
}

/// The summary a message may carry.
#[derive(Debug, Clone, PartialEq)]
pub struct MessageSummary {
    pub title: Option<String>,
}

/// The model a message names.
#[derive(Debug, Clone, PartialEq)]
pub struct ModelInfo {
    pub provider_id: String,
    pub model_id: String,
}

/// A message file: the message's facts; its text lives in part files.
#[derive(Debug, Clone, PartialEq)]
pub struct MessageMetadata {
    pub id: String,
    pub session_id: String,
    pub role: String,
    pub time: MessageTime,
    pub summary: Option<MessageSummary>,
    pub agent: Option<String>,
    pub model: Option<ModelInfo>,
    pub system: Option<String>,
}

/// A part file of a message.
#[derive(Debug, Clone, PartialEq)]
pub struct MessagePart {
    pub id: String,
    pub message_id: String,
    pub part_type: String,
    pub text: Option<String>,
}

pub open spec fn times_of(j: Json) -> Option<(u64, u64)> {
    match field(j, "time"@) {
        Some(t) => match (u64_of(field(t, "created"@)), u64_of(field(t, "updated"@))) {
            (Some(c), Some(u)) => Some((c, u)),
            _ => None,
        },
        None => None,
    }
}

/// A project document: it must give its id, worktree and times.
pub open spec fn project_of(j: Json) -> Option<(Seq<char>, Seq<char>, Option<Seq<char>>, u64, u64)> {
    match (str_of(field(j, "id"@)), str_of(field(j, "worktree"@)), times_of(j)) {
        (Some(id), Some(w), Some(t)) => Some((id, w, str_of(field(j, "vcs"@)), t.0, t.1)),
        _ => None,
    }
}

fn times_from(j: &Json) -> (r: Option<(u64, u64)>)
    ensures
        r == times_of(*j),
{
    match j.get("time") {
        Some(t) => match (t.get_u64("created"), t.get_u64("updated")) {
            (Some(c), Some(u)) => Some((c, u)),
            _ => None,
        },
        None => None,
    }
}

/// Reads a project file's text.
pub fn parse_project(text: &str) -> (r: Result<ProjectMetadata, String>)
    ensures
        match r {
            Ok(p) => match json_of(text@) {
                Some(j) => project_of(j) == Some((p.id@, p.worktree@, opt_view(p.vcs), p.time.created, p.time.updated)),
                None => false,
            },
            Err(_) => match json_of(text@) {
                Some(j) => project_of(j) is None,
                None => true,
            },
        },
{
    let j = match parse_json(text) {
        Some(j) => j,
        None => return Err(crate::text::lit("Failed to parse project JSON")),
    };
    match (j.get_str("id"), j.get_str("worktree"), times_from(&j)) {
        (Some(id), Some(w), Some(t)) => Ok(
            ProjectMetadata {
                id: id.clone(),
                worktree: w.clone(),
                vcs: opt_string(j.get_str("vcs")),
                time: ProjectTime { created: t.0, updated: t.1 },
            },
        ),
        _ => Err(crate::text::lit("Failed to parse project JSON")),
    }
}

pub struct SessionMetaView {
    pub id: Seq<char>,
    pub slug: Option<Seq<char>>,
    pub version: Option<Seq<char>>,
    pub project_id: Seq<char>,
    pub directory: Seq<char>,
    pub parent_id: Option<Seq<char>>,
    pub title: Option<Seq<char>>,
    pub created: u64,
    pub updated: u64,
}

impl View for SessionMetadata {
    type V = SessionMetaView;

    open spec fn view(&self) -> SessionMetaView {
        SessionMetaView {
            id: self.id@,
            slug: opt_view(self.slug),
            version: opt_view(self.version),
            project_id: self.project_id@,
            directory: self.directory@,
            parent_id: opt_view(self.parent_id),
            title: opt_view(self.title),
            created: self.time.created,
            updated: self.time.updated,
        }
    }
}

/// A session document: it must give its id, project, directory and times.
pub open spec fn session_of(j: Json) -> Option<SessionMetaView> {
    match (str_of(field(j, "id"@)), str_of(field(j, "projectID"@)), str_of(field(j, "directory"@)), times_of(j)) {
        (Some(id), Some(p), Some(d), Some(t)) => Some(
            SessionMetaView {
                id,
                slug: str_of(field(j, "slug"@)),
                version: str_of(field(j, "version"@)),
                project_id: p,
                directory: d,
                parent_id: str_of(field(j, "parentID"@)),
                title: str_of(field(j, "title"@)),
                created: t.0,
                updated: t.1,
            },
        ),
        _ => None,
    }
}

/// What a session file's text gives, if it is a session document.
pub open spec fn session_text(text: Seq<char>) -> Option<SessionMetaView> {
    match json_of(text) {
        Some(j) => session_of(j),
        None => None,
    }
}

/// Reads a session file's text.
pub fn parse_session(text: &str) -> (r: Result<SessionMetadata, String>)
    ensures
        match r {
            Ok(s) => session_text(text@) == Some(s@),
            Err(_) => session_text(text@) is None,
        },
{
    let j = match parse_json(text) {
        Some(j) => j,
        None => return Err(crate::text::lit("Failed to parse session JSON")),
    };
    match (j.get_str("id"), j.get_str("projectID"), j.get_str("directory"), times_from(&j)) {
        (Some(id), Some(p), Some(d), Some(t)) => Ok(
            SessionMetadata {
                id: id.clone(),
                slug: opt_string(j.get_str("slug")),
                version: opt_string(j.get_str("version")),
                project_id: p.clone(),
                directory: d.clone(),
                parent_id: opt_string(j.get_str("parentID")),
                title: opt_string(j.get_str("title")),
                time: SessionTime { created: t.0, updated: t.1 },
            },
        ),
        _ => Err(crate::text::lit("Failed to parse session JSON")),
    }
}

pub struct MessageMetaView {
    pub id: Seq<char>,
    pub session_id: Seq<char>,
    pub role: Seq<char>,
    pub created: u64,
    pub title: Option<Seq<char>>,
    pub system: Option<Seq<char>>,
}

/// A message document: it must give its id, session, role and creation time.
pub open spec fn message_of(j: Json) -> Option<MessageMetaView> {
    match (
        str_of(field(j, "id"@)),
        str_of(field(j, "sessionID"@)),
        str_of(field(j, "role"@)),
        match field(j, "time"@) {
            Some(t) => u64_of(field(t, "created"@)),
            None => None,
        },
    ) {
        (Some(id), Some(s), Some(role), Some(c)) => Some(
            MessageMetaView {
                id,
                session_id: s,
                role,
                created: c,
                title: match field(j, "summary"@) {
                    Some(sm) => str_of(field(sm, "title"@)),
                    None => None,
                },
                system: str_of(field(j, "system"@)),
            },
        ),
        _ => None,
    }
}

/// What a message file's text gives, if it is a message document.
pub open spec fn message_text(text: Seq<char>) -> Option<MessageMetaView> {
    match json_of(text) {
        Some(j) => message_of(j),
        None => None,
    }
}

impl View for MessageMetadata {
    type V = MessageMetaView;

    open spec fn view(&self) -> MessageMetaView {
        MessageMetaView {
            id: self.id@,
            session_id: self.session_id@,
            role: self.role@,
            created: self.time.created,
            title: match self.summary {
                Some(s) => opt_view(s.title),
                None => None,
            },
            system: opt_view(self.system),
        }
    }
}

/// Reads a message file's text.
pub fn parse_message(text: &str) -> (r: Result<MessageMetadata, String>)
    ensures
        match r {
            Ok(m) => message_text(text@) == Some(m@),
            Err(_) => message_text(text@) is None,
        },
{
    let j = match parse_json(text) {
        Some(j) => j,
        None => return Err(crate::text::lit("Failed to parse message JSON")),
    };
    let created = match j.get("time") {
        Some(t) => t.get_u64("created"),
        None => None,
    };
    match (j.get_str("id"), j.get_str("sessionID"), j.get_str("role"), created) {
        (Some(id), Some(s), Some(role), Some(c)) => {
            let summary = match j.get("summary") {
                Some(sm) => Some(MessageSummary { title: opt_string(sm.get_str("title")) }),
                None => None,
            };
            let model = match j.get("model") {
                Some(m) => match (m.get_str("providerID"), m.get_str("modelID")) {
                    (Some(p), Some(mi)) => Some(ModelInfo { provider_id: p.clone(), model_id: mi.clone() }),
                    _ => None,
                },
                None => None,
            };
            Ok(
                MessageMetadata {
                    id: id.clone(),
                    session_id: s.clone(),
                    role: role.clone(),
                    time: MessageTime { created: c },
                    summary,
                    agent: opt_string(j.get_str("agent")),
                    model,
                    system: opt_string(j.get_str("system")),
                },
            )
        },
        _ => Err(crate::text::lit("Failed to parse message JSON")),
    }
}

/// A part document: it must give its id, message and type.
pub open spec fn part_of(j: Json) -> Option<(Seq<char>, Option<Seq<char>>)> {
    match (str_of(field(j, "id"@)), str_of(field(j, "messageID"@)), str_of(field(j, "type"@))) {
        (Some(_), Some(_), Some(t)) => Some((t, str_of(field(j, "text"@)))),
        _ => None,
    }
}

/// Reads a part file's text.
pub fn parse_part(text: &str) -> (r: Option<MessagePart>)
    ensures
        match r {
            Some(p) => json_of(text@) matches Some(j) && part_of(j) == Some((p.part_type@, opt_view(p.text))),
            None => json_of(text@) matches Some(j) ==> part_of(j) is None,
        },
{
    let j = match parse_json(text) {
        Some(j) => j,
        None => return None,
    };
    match (j.get_str("id"), j.get_str("messageID"), j.get_str("type")) {
        (Some(id), Some(m), Some(t)) => Some(
            MessagePart { id: id.clone(), message_id: m.clone(), part_type: t.clone(), text: opt_string(j.get_str("text")) },
        ),
        _ => None,
    }
}

} // verus!
