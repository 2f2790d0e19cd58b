//! The document model: a zerra is a titled flow of queries conducted live
//! between the two roles, with its progress through the session's lifecycle.
//!
//! Timestamps are carried as whole seconds, and outside representations
//! (storage rows, serialized blobs) are converted at the boundary.

use vstd::prelude::*;

verus! {

/// Where a query stands while the session is ongoing.
#[derive(Debug, Clone, Copy, PartialEq, Eq, Structural)]
pub enum QueryStatus {
    Deciding,
    Answering,
    Reviewing,
    AttendeeReviewing,
}

/// How far a zerra's session has progressed.
pub enum Progress {
    /// No attendee has ever joined.
    NotStarted,
    Intro {
        participant_uuid: String,
    },
    Ongoing {
        participant_uuid: String,
        participant_name: String,
        view: Vec<usize>,
        query_status: QueryStatus,
    },
    Finished {
        participant_uuid: String,
        participant_name: String,
        printable: bool,
    },
}

impl Progress {
    /// The attendee identity bound to this zerra, if any has ever joined.
    pub open spec fn spec_participant_uuid(&self) -> Option<Seq<char>> {
        match self {
            Progress::NotStarted => None,
            Progress::Intro { participant_uuid } => Some(participant_uuid@),
            Progress::Ongoing { participant_uuid, .. } => Some(participant_uuid@),
            Progress::Finished { participant_uuid, .. } => Some(participant_uuid@),
        }
    }
}

/// One query of the flow: the question, the conductor's prepared revelation,
/// the attendee's answer, and a nested subflow.
pub struct Query {
    pub key: u16,
    pub question: String,
    pub revelation: String,
    pub answer: Option<String>,
    pub comment: Option<String>,
    pub subflow: Vec<Query>,
    pub skippable: bool,
    pub visible: bool,
}

impl Query {
    /// An empty query under a caller-chosen key: blank texts, nothing
    /// answered, no subflow, not skippable, visible.
    pub fn blank(key: u16) -> (q: Query)
        ensures
            q.key == key,
            q.question@ == Seq::<char>::empty(),
            q.revelation@ == Seq::<char>::empty(),
            q.answer is None,
            q.comment is None,
            q.subflow@ == Seq::<Query>::empty(),
            !q.skippable,
            q.visible,
    {
        Query {
            key,
            question: String::new(),
            revelation: String::new(),
            answer: None,
            comment: None,
            subflow: Vec::new(),
            skippable: false,
            visible: true,
        }
    }
}

/// A zerra: the document one session conducts.
pub struct Zerra {
    pub id: String,
    pub title: String,
    pub progress: Progress,
    pub flow: Vec<Query>,
}

impl Zerra {
    /// The fresh document a caller-supplied id and query key start from: the
    /// default title, no progress, and one blank query.
    pub fn fresh(id: String, key: u16) -> (z: Zerra)
        ensures
            z.id@ == id@,
            z.title@ == "Title"@,
            z.progress == Progress::NotStarted,
            z.flow@.len() == 1,
            z.flow@[0].key == key,
            z.flow@[0].question@ == Seq::<char>::empty(),
            z.flow@[0].revelation@ == Seq::<char>::empty(),
            z.flow@[0].answer is None,
            z.flow@[0].comment is None,
            z.flow@[0].subflow@ == Seq::<Query>::empty(),
            !z.flow@[0].skippable,
            z.flow@[0].visible,
    {
        let mut flow: Vec<Query> = Vec::new();
        flow.push(Query::blank(key));
        Zerra { id, title: String::from_str("Title"), progress: Progress::NotStarted, flow }
    }

    /// The same document under a new identity; everything else is kept. This
    /// is what copying and importing do before storing.
    pub fn with_id(self, id: String) -> (z: Zerra)
        ensures
            z.id@ == id@,
            z.title == self.title,
            z.progress == self.progress,
            z.flow == self.flow,
    {
        Zerra { id, ..self }
    }
}

/// One row of a zerra listing: the id, the document's title, and its last
/// modification as whole seconds.
#[derive(Debug, Clone, PartialEq, Eq)]
pub struct ListItem {
    pub id: String,
    pub name: String,
    pub last_modified: i64,
}

impl ListItem {
    /// Assemble a listing row from what the storage row carries.
    pub fn new(id: String, name: String, last_modified: i64) -> (r: ListItem)
        ensures
            r.id@ == id@,
            r.name@ == name@,
            r.last_modified == last_modified,
    {
        ListItem { id, name, last_modified }
    }
}

} // verus!
