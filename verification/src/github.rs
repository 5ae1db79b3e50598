//! Plain data types mirroring what the hosting platform reports: users and
//! their repository role, pull-request snapshots, comments and notifications.
//! All timestamps are nanoseconds since the Unix epoch.

use vstd::prelude::*;
use crate::ledger::spec_full_id;
use crate::ledger::full_id_string;

verus! {

/// The commenter's association with the repository.
#[derive(Debug, Clone, Copy, PartialEq, Eq, Structural)]
pub enum AuthorRole {
    Owner,
    Member,
    Collaborator,
    Contributor,
    FirstTimer,
    FirstTimeContributor,
    Mannequin,
    Unaffiliated,
}

#[derive(Debug)]
pub struct User {
    pub login: String,
    pub contributor_type: AuthorRole,
}

/// Maintainers are owners, members, and collaborators.
pub open spec fn spec_is_maintainer(role: AuthorRole) -> bool {
    role is Owner || role is Member || role is Collaborator
}

impl User {
    pub fn is_maintainer(&self) -> (r: bool)
        ensures
            r == spec_is_maintainer(self.contributor_type),
    {
        match self.contributor_type {
            AuthorRole::Owner => true,
            AuthorRole::Member => true,
            AuthorRole::Collaborator => true,
            _ => false,
        }
    }
}

impl Clone for User {
    fn clone(&self) -> (r: Self)
        ensures
            r == *self,
    {
        User { login: self.login.clone(), contributor_type: self.contributor_type }
    }
}

/// Immutable snapshot of a contribution, as fetched from the platform.
/// `full_id` is always `owner/repo/number`.
#[derive(Debug)]
pub struct PrMetadata {
    pub owner: String,
    pub repo: String,
    pub number: u64,
    pub full_id: String,
    pub author: User,
    pub started: u64,
    pub merged: Option<u64>,
    pub closed: bool,
}

impl PrMetadata {
    /// The id field matches the identifying triple.
    pub open spec fn wf(self) -> bool {
        self.full_id@ == spec_full_id(self.owner@, self.repo@, self.number)
    }

    pub fn new(
        owner: String,
        repo: String,
        number: u64,
        author: User,
        started: u64,
        merged: Option<u64>,
        closed: bool,
    ) -> (r: Self)
        ensures
            r.wf(),
            r.owner == owner,
            r.repo == repo,
            r.number == number,
            r.author == author,
            r.started == started,
            r.merged == merged,
            r.closed == closed,
    {
        let full_id = full_id_string(&owner, &repo, number);
        PrMetadata { owner, repo, number, full_id, author, started, merged, closed }
    }
}

impl Clone for PrMetadata {
    fn clone(&self) -> (r: Self)
        ensures
            r == *self,
    {
        PrMetadata {
            owner: self.owner.clone(),
            repo: self.repo.clone(),
            number: self.number,
            full_id: self.full_id.clone(),
            author: self.author.clone(),
            started: self.started,
            merged: self.merged,
            closed: self.closed,
        }
    }
}

/// A comment in a pull-request thread. The platform may deliver the body in
/// any of three fields.
#[derive(Debug)]
pub struct Comment {
    pub id: u64,
    pub user: User,
    pub body: Option<String>,
    pub body_html: Option<String>,
    pub body_text: Option<String>,
    pub created_at: u64,
}

/// The text a comment is judged by: the primary body, falling back to the
/// HTML body, then the plain-text body, then nothing.
pub open spec fn comment_text(c: Comment) -> Seq<char> {
    if c.body is Some {
        c.body->0@
    } else if c.body_html is Some {
        c.body_html->0@
    } else if c.body_text is Some {
        c.body_text->0@
    } else {
        Seq::<char>::empty()
    }
}

impl Comment {
    /// Resolve the body fallback chain.
    pub fn text(&self) -> (r: &str)
        ensures
            r@ == comment_text(*self),
    {
        match &self.body {
            Some(b) => b.as_str(),
            None => match &self.body_html {
                Some(b) => b.as_str(),
                None => match &self.body_text {
                    Some(b) => b.as_str(),
                    None => {
                        proof {
                            reveal_strlit("");
                            assert(""@ =~= Seq::<char>::empty());
                        }
                        ""
                    },
                },
            },
        }
    }

    /// Whether any body field is present at all.
    pub fn has_text(&self) -> (r: bool)
        ensures
            r == (self.body is Some || self.body_html is Some || self.body_text is Some),
    {
        self.body.is_some() || self.body_html.is_some() || self.body_text.is_some()
    }
}

/// Why a notification was delivered.
#[derive(Debug, Clone, Copy, PartialEq, Eq, Structural)]
pub enum NotificationReason {
    Mention,
    StateChange,
    Other,
}

/// An activity notification.
#[derive(Debug, Clone, Copy, PartialEq, Eq, Structural)]
pub struct Notification {
    pub id: u64,
    pub updated_at: u64,
    pub is_pull_request: bool,
    pub reason: NotificationReason,
}

impl Notification {
    /// Only pull-request notifications for mentions or state changes are
    /// processed.
    pub open spec fn spec_relevant(self) -> bool {
        self.is_pull_request && (self.reason is Mention || self.reason is StateChange)
    }

    pub fn relevant(&self) -> (r: bool)
        ensures
            r == self.spec_relevant(),
    {
        self.is_pull_request && (matches!(self.reason, NotificationReason::Mention) || matches!(
            self.reason,
            NotificationReason::StateChange,
        ))
    }
}

} // verus!
