//! Commands: parsing comments into typed commands, and executing commands
//! against the ledger behind the freshly-read idempotency gate.
//!
//! Execution returns the platform side effects (replies, reactions, read
//! marks) as data; performing them is the caller's business. A command whose
//! gate says the work is already done is a no-op: no ledger write, and only
//! the read mark as an effect.

use vstd::prelude::*;
use vstd::string::StringExecFns;
use vstd::string::StrSliceExecFns;
use crate::github::Comment;
use crate::github::Notification;
use crate::github::PrMetadata;
use crate::github::User;
use crate::github::comment_text;
use crate::github::spec_is_maintainer;
use crate::ledger::Ledger;
use crate::ledger::LedgerError;
use crate::ledger::PRInfo;
use crate::ledger::executed_ok;
use crate::ledger::executed_transition;
use crate::ledger::only_prs_changed;
use crate::ledger::scored_record;
use crate::ledger::merged_record;
use crate::messages::MsgCategory;
use crate::text::concat_str;
use crate::text::contains_seq;
use crate::text::contains_str;
use crate::text::dec_value;
use crate::text::all_digits;
use crate::text::find_first;
use crate::text::find_str;
use crate::text::line_spec;
use crate::text::parse_u64;
use crate::text::take_line;
use crate::text::trim;
use crate::text::trim_spec;

verus! {

/// A platform side effect the executor asks for.
#[derive(Debug)]
pub enum Effect {
    /// Post a comment on the pull request.
    Reply { owner: String, repo: String, number: u64, text: String },
    /// Leave a thumbs-up reaction on the triggering comment.
    LikeComment { owner: String, repo: String, comment_id: u64 },
    /// Mark the triggering notification read.
    MarkRead { notification_id: u64 },
    /// Post a templated comment, rendered by the message loader.
    ReplyTemplate { owner: String, repo: String, number: u64, category: MsgCategory },
}

pub open spec fn is_reply(e: Effect, owner: Seq<char>, repo: Seq<char>, number: u64, text: Seq<char>) -> bool {
    &&& e is Reply
    &&& e->Reply_owner@ == owner
    &&& e->Reply_repo@ == repo
    &&& e->Reply_number == number
    &&& e->Reply_text@ == text
}

pub open spec fn is_like(e: Effect, owner: Seq<char>, repo: Seq<char>, comment_id: u64) -> bool {
    &&& e is LikeComment
    &&& e->LikeComment_owner@ == owner
    &&& e->LikeComment_repo@ == repo
    &&& e->LikeComment_comment_id == comment_id
}

pub open spec fn is_mark_read(e: Effect, notification_id: u64) -> bool {
    e == (Effect::MarkRead { notification_id })
}

/// The trigger phrase of a command: `@bot <word>`.
pub open spec fn spec_phrase(bot: Seq<char>, tail: Seq<char>) -> Seq<char> {
    "@"@ + bot + tail
}

fn phrase_string(bot_name: &String, tail: &str) -> (r: String)
    ensures
        r@ == spec_phrase(bot_name@, tail@),
{
    let s = concat_str("@", bot_name.as_str());
    concat_str(s.as_str(), tail)
}

/// `Start`: asks the ledger to include the contribution in the race.
#[derive(Debug)]
pub struct BotStarted {
    pub sender_login: String,
    pub pr_metadata: PrMetadata,
    pub timestamp: u64,
    pub comment_id: u64,
}

/// `Score`: a maintainer rates the contribution. The score text is kept
/// verbatim; it is validated at execution time, not at parse time.
#[derive(Debug)]
pub struct BotScored {
    pub sender: User,
    pub pr_metadata: PrMetadata,
    pub score: String,
    pub timestamp: u64,
    pub comment_id: u64,
    pub notification_id: u64,
}

/// `Pause`: stop watching the repository.
#[derive(Debug)]
pub struct BotPaused {
    pub pr_metadata: PrMetadata,
    pub sender: User,
    pub timestamp: u64,
    pub comment_id: u64,
}

/// `Unpause`: watch the repository again.
#[derive(Debug)]
pub struct BotUnpaused {
    pub pr_metadata: PrMetadata,
    pub sender: User,
    pub timestamp: u64,
    pub comment_id: u64,
}

/// The closed set of commands. Exactly one can come out of one comment.
#[derive(Debug)]
pub enum Command {
    Start(BotStarted),
    Score(BotScored),
    Pause(BotPaused),
    Unpause(BotUnpaused),
}

impl BotStarted {
    /// Recognize `@bot include` anywhere in the comment body.
    pub fn parse_comment(
        bot_name: &String,
        notification: &Notification,
        pr_metadata: &PrMetadata,
        comment: &Comment,
    ) -> (r: Option<BotStarted>)
        ensures
            match r {
                Some(c) => {
                    &&& contains_seq(comment_text(*comment), spec_phrase(bot_name@, " include"@))
                    &&& c.sender_login@ == comment.user.login@
                    &&& c.pr_metadata == pr_metadata
                    &&& c.timestamp == notification.updated_at
                    &&& c.comment_id == comment.id
                },
                None => !contains_seq(comment_text(*comment), spec_phrase(bot_name@, " include"@)),
            },
    {
        let phrase = phrase_string(bot_name, " include");
        if contains_str(comment.text(), phrase.as_str()) {
            Some(
                BotStarted {
                    sender_login: comment.user.login.clone(),
                    pr_metadata: pr_metadata.clone(),
                    timestamp: notification.updated_at,
                    comment_id: comment.id,
                },
            )
        } else {
            None
        }
    }
}

impl BotScored {
    /// Recognize `@bot score` and keep the rest of that line, trimmed, as
    /// the score text.
    pub fn parse_comment(
        bot_name: &String,
        notification: &Notification,
        pr_metadata: &PrMetadata,
        comment: &Comment,
    ) -> (r: Option<BotScored>)
        ensures
            ({
                let text = comment_text(*comment);
                let phrase = spec_phrase(bot_name@, " score"@);
                match r {
                    Some(c) => {
                        &&& find_first(text, phrase) is Some
                        &&& c.score@ == trim_spec(
                            line_spec(
                                text.subrange(
                                    find_first(text, phrase)->0 + phrase.len(),
                                    text.len() as int,
                                ),
                            ),
                        )
                        &&& c.sender == comment.user
                        &&& c.pr_metadata == pr_metadata
                        &&& c.timestamp == notification.updated_at
                        &&& c.comment_id == comment.id
                        &&& c.notification_id == notification.id
                    },
                    None => find_first(text, phrase) is None,
                }
            }),
    {
        let phrase = phrase_string(bot_name, " score");
        let body = comment.text();
        match find_str(body, phrase.as_str()) {
            None => None,
            Some(at) => {
                proof {
                    crate::text::lemma_find_from_some(body@, phrase@, 0);
                }
                let body_len = body.unicode_len();
                let phrase_len = phrase.unicode_len();
                let rest = body.substring_char(at + phrase_len, body_len);
                let line = take_line(rest);
                let score = trim(line.as_str());
                Some(
                    BotScored {
                        sender: comment.user.clone(),
                        pr_metadata: pr_metadata.clone(),
                        score,
                        timestamp: notification.updated_at,
                        comment_id: comment.id,
                        notification_id: notification.id,
                    },
                )
            },
        }
    }
}

impl BotPaused {
    /// Recognize `@bot pause`. A comment with no body at all never matches.
    pub fn parse_command(bot_name: &String, pr_metadata: &PrMetadata, comment: &Comment) -> (r:
        Option<Command>)
        ensures
            match r {
                Some(c) => {
                    &&& c is Pause
                    &&& contains_seq(comment_text(*comment), spec_phrase(bot_name@, " pause"@))
                    &&& c->Pause_0.sender == comment.user
                    &&& c->Pause_0.pr_metadata == pr_metadata
                    &&& c->Pause_0.timestamp == comment.created_at
                    &&& c->Pause_0.comment_id == comment.id
                },
                None => !contains_seq(comment_text(*comment), spec_phrase(bot_name@, " pause"@)),
            },
    {
        if !comment.has_text() {
            proof {
                assert(comment_text(*comment).len() == 0);
                if contains_seq(comment_text(*comment), spec_phrase(bot_name@, " pause"@)) {
                    let i = choose|i: int|
                        crate::text::occurs_at(
                            comment_text(*comment),
                            spec_phrase(bot_name@, " pause"@),
                            i,
                        );
                    assert(spec_phrase(bot_name@, " pause"@).len() >= 1) by {
                        reveal_strlit("@");
                    }
                }
            }
            return None;
        }
        let phrase = phrase_string(bot_name, " pause");
        if contains_str(comment.text(), phrase.as_str()) {
            Some(
                Command::Pause(
                    BotPaused {
                        pr_metadata: pr_metadata.clone(),
                        sender: comment.user.clone(),
                        timestamp: comment.created_at,
                        comment_id: comment.id,
                    },
                ),
            )
        } else {
            None
        }
    }
}

impl BotUnpaused {
    /// Recognize `@bot unpause`. A comment with no body at all never
    /// matches.
    pub fn parse_command(bot_name: &String, pr_metadata: &PrMetadata, comment: &Comment) -> (r:
        Option<Command>)
        ensures
            match r {
                Some(c) => {
                    &&& c is Unpause
                    &&& contains_seq(comment_text(*comment), spec_phrase(bot_name@, " unpause"@))
                    &&& c->Unpause_0.sender == comment.user
                    &&& c->Unpause_0.pr_metadata == pr_metadata
                    &&& c->Unpause_0.timestamp == comment.created_at
                    &&& c->Unpause_0.comment_id == comment.id
                },
                None => !contains_seq(
                    comment_text(*comment),
                    spec_phrase(bot_name@, " unpause"@),
                ),
            },
    {
        if !comment.has_text() {
            proof {
                assert(comment_text(*comment).len() == 0);
                if contains_seq(comment_text(*comment), spec_phrase(bot_name@, " unpause"@)) {
                    let i = choose|i: int|
                        crate::text::occurs_at(
                            comment_text(*comment),
                            spec_phrase(bot_name@, " unpause"@),
                            i,
                        );
                    assert(spec_phrase(bot_name@, " unpause"@).len() >= 1) by {
                        reveal_strlit("@");
                    }
                }
            }
            return None;
        }
        let phrase = phrase_string(bot_name, " unpause");
        if contains_str(comment.text(), phrase.as_str()) {
            Some(
                Command::Unpause(
                    BotUnpaused {
                        pr_metadata: pr_metadata.clone(),
                        sender: comment.user.clone(),
                        timestamp: comment.created_at,
                        comment_id: comment.id,
                    },
                ),
            )
        } else {
            None
        }
    }
}

/// The onboarding reply posted when a contribution joins the race.
pub open spec fn spec_start_msg(user: Seq<char>) -> Seq<char> {
    "This pull request is a part of Sloth race now. Dear maintainer, please use `@"@ + user
        + " score [1-10]` to rate it, or `@"@ + user + " pause` to stop the sloth for the repository."@
}

/// Build the onboarding reply.
pub fn msg(user: &String) -> (r: String)
    ensures
        r@ == spec_start_msg(user@),
{
    let mut s = concat_str(
        "This pull request is a part of Sloth race now. Dear maintainer, please use `@",
        user.as_str(),
    );
    s.append(" score [1-10]` to rate it, or `@");
    s.append(user.as_str());
    s.append(" pause` to stop the sloth for the repository.");
    proof {
        assert(s@ =~= spec_start_msg(user@));
    }
    s
}

impl BotStarted {
    /// Execute `Start` against a fresh snapshot: nothing happens when the
    /// record already exists or the organization is not allowed; otherwise the
    /// ledger gets a fresh record and the platform an onboarding reply and
    /// a reaction.
    pub fn execute(&self, ledger: &mut Ledger, bot_name: &String) -> (r: Result<
        Vec<Effect>,
        LedgerError,
    >)
        requires
            old(ledger).wf(),
            self.pr_metadata.wf(),
        ensures
            final(ledger).wf(),
            ({
                let pr = self.pr_metadata;
                let info = old(ledger).spec_pr_info(pr.owner@, pr.repo@, pr.number);
                match r {
                    Ok(effects) => if info.exist || !info.allowed {
                        *final(ledger) == *old(ledger) && effects@.len() == 0
                    } else {
                        &&& final(ledger).prs@ == old(ledger).prs@.insert(
                            pr.full_id@,
                            (crate::ledger::PRRecord {
                                organization: pr.owner,
                                repo: pr.repo,
                                number: pr.number,
                                author: pr.author.login,
                                created_at: pr.started,
                                score: None,
                                merged_at: None,
                            }),
                        )
                        &&& only_prs_changed(*old(ledger), *final(ledger))
                        &&& effects@.len() == 2
                        &&& is_reply(
                            effects@[0],
                            pr.owner@,
                            pr.repo@,
                            pr.number,
                            spec_start_msg(bot_name@),
                        )
                        &&& is_like(effects@[1], pr.owner@, pr.repo@, self.comment_id)
                    },
                    Err(_) => false,
                }
            }),
    {
        let info = ledger.check_info(
            &self.pr_metadata.owner,
            &self.pr_metadata.repo,
            self.pr_metadata.number,
        );
        if info.exist || !info.allowed {
            return Ok(Vec::new());
        }
        match ledger.sloth_called(
            self.pr_metadata.owner.clone(),
            self.pr_metadata.repo.clone(),
            self.pr_metadata.number,
            self.pr_metadata.author.login.clone(),
            self.pr_metadata.started,
        ) {
            Ok(()) => {
                let mut effects: Vec<Effect> = Vec::new();
                effects.push(
                    Effect::Reply {
                        owner: self.pr_metadata.owner.clone(),
                        repo: self.pr_metadata.repo.clone(),
                        number: self.pr_metadata.number,
                        text: msg(bot_name),
                    },
                );
                effects.push(
                    Effect::LikeComment {
                        owner: self.pr_metadata.owner.clone(),
                        repo: self.pr_metadata.repo.clone(),
                        comment_id: self.comment_id,
                    },
                );
                Ok(effects)
            },
            Err(e) => {
                proof {
                    assert(false);
                }
                Err(e)
            },
        }
    }
}

impl BotScored {
    /// Execute `Score` against a fresh snapshot. A snapshot that shows the
    /// work already done leaves the ledger untouched; an invalid score or an ineligible
    /// sender gets an error reply; an eligible score is recorded, which may
    /// complete the executed transition when the merge is already in.
    /// Every path marks the notification read.
    pub fn execute(&self, ledger: &mut Ledger) -> (r: Result<Vec<Effect>, LedgerError>)
        requires
            old(ledger).wf(),
            self.pr_metadata.wf(),
        ensures
            final(ledger).wf(),
            ({
                let pr = self.pr_metadata;
                let info = old(ledger).spec_pr_info(pr.owner@, pr.repo@, pr.number);
                let id = pr.full_id@;
                match r {
                    Ok(effects) => if !info.allowed || !info.exist || info.executed {
                        &&& *final(ledger) == *old(ledger)
                        &&& effects@.len() == 1
                        &&& is_mark_read(effects@[0], self.notification_id)
                    } else if !spec_valid_score(self.score@) {
                        &&& *final(ledger) == *old(ledger)
                        &&& effects@.len() == 2
                        &&& is_reply(
                            effects@[0],
                            pr.owner@,
                            pr.repo@,
                            pr.number,
                            "Score should be between 1 and 10"@,
                        )
                        &&& is_mark_read(effects@[1], self.notification_id)
                    } else if pr.author.login@ == self.sender.login@ || !spec_is_maintainer(
                        self.sender.contributor_type,
                    ) {
                        &&& *final(ledger) == *old(ledger)
                        &&& effects@.len() == 2
                        &&& is_reply(
                            effects@[0],
                            pr.owner@,
                            pr.repo@,
                            pr.number,
                            "Only maintainers can score PRs, and you can't score your own PRs."@,
                        )
                        &&& is_mark_read(effects@[1], self.notification_id)
                    } else {
                        &&& old(ledger).prs@.contains_key(id)
                        &&& ({
                            let rec = scored_record(
                                old(ledger).prs@[id],
                                dec_value(self.score@) as u64,
                            );
                            if old(ledger).prs@[id].merged_at is Some {
                                &&& executed_ok(*old(ledger), rec)
                                &&& executed_transition(*old(ledger), *final(ledger), id, rec)
                                &&& final(ledger).prs@ == old(ledger).prs@.remove(id)
                            } else {
                                &&& final(ledger).prs@ == old(ledger).prs@.insert(id, rec)
                                &&& only_prs_changed(*old(ledger), *final(ledger))
                            }
                        })
                        &&& effects@.len() == 3
                        &&& is_reply(
                            effects@[0],
                            pr.owner@,
                            pr.repo@,
                            pr.number,
                            "Thanks for submitting your score for the Sloth race."@,
                        )
                        &&& is_like(effects@[1], pr.owner@, pr.repo@, self.comment_id)
                        &&& is_mark_read(effects@[2], self.notification_id)
                    },
                    Err(e) => {
                        &&& e == LedgerError::CounterOverflow
                        &&& info.allowed && info.exist && !info.executed
                        &&& spec_valid_score(self.score@)
                        &&& pr.author.login@ != self.sender.login@
                        &&& spec_is_maintainer(self.sender.contributor_type)
                        &&& old(ledger).prs@.contains_key(id)
                        &&& old(ledger).prs@[id].merged_at is Some
                        &&& !executed_ok(
                            *old(ledger),
                            scored_record(old(ledger).prs@[id], dec_value(self.score@) as u64),
                        )
                        &&& final(ledger).prs@ == old(ledger).prs@
                        &&& only_prs_changed(*old(ledger), *final(ledger))
                    },
                }
            }),
    {
        let info = ledger.check_info(
            &self.pr_metadata.owner,
            &self.pr_metadata.repo,
            self.pr_metadata.number,
        );
        if !info.allowed || !info.exist || info.executed {
            let mut effects: Vec<Effect> = Vec::new();
            effects.push(Effect::MarkRead { notification_id: self.notification_id });
            return Ok(effects);
        }
        match parse_score(self.score.as_str()) {
            None => {
                let mut effects: Vec<Effect> = Vec::new();
                effects.push(
                    Effect::Reply {
                        owner: self.pr_metadata.owner.clone(),
                        repo: self.pr_metadata.repo.clone(),
                        number: self.pr_metadata.number,
                        text: String::from_str("Score should be between 1 and 10"),
                    },
                );
                effects.push(Effect::MarkRead { notification_id: self.notification_id });
                Ok(effects)
            },
            Some(score) => {
                if self.pr_metadata.author.login.eq(&self.sender.login)
                    || !self.sender.is_maintainer() {
                    let mut effects: Vec<Effect> = Vec::new();
                    effects.push(
                        Effect::Reply {
                            owner: self.pr_metadata.owner.clone(),
                            repo: self.pr_metadata.repo.clone(),
                            number: self.pr_metadata.number,
                            text: String::from_str(
                                "Only maintainers can score PRs, and you can't score your own PRs.",
                            ),
                        },
                    );
                    effects.push(Effect::MarkRead { notification_id: self.notification_id });
                    Ok(effects)
                } else {
                    match ledger.sloth_scored(&self.pr_metadata.full_id, score as u64) {
                        Ok(()) => {
                            let mut effects: Vec<Effect> = Vec::new();
                            effects.push(
                                Effect::Reply {
                                    owner: self.pr_metadata.owner.clone(),
                                    repo: self.pr_metadata.repo.clone(),
                                    number: self.pr_metadata.number,
                                    text: String::from_str(
                                        "Thanks for submitting your score for the Sloth race.",
                                    ),
                                },
                            );
                            effects.push(
                                Effect::LikeComment {
                                    owner: self.pr_metadata.owner.clone(),
                                    repo: self.pr_metadata.repo.clone(),
                                    comment_id: self.comment_id,
                                },
                            );
                            effects.push(
                                Effect::MarkRead { notification_id: self.notification_id },
                            );
                            Ok(effects)
                        },
                        Err(e) => Err(e),
                    }
                }
            },
        }
    }
}

impl BotPaused {
    /// Execute `Pause`: flag the repository and confirm.
    pub fn execute(&self, ledger: &mut Ledger) -> (r: Result<Vec<Effect>, LedgerError>)
        requires
            old(ledger).wf(),
        ensures
            final(ledger).wf(),
            ({
                let pr = self.pr_metadata;
                match r {
                    Ok(effects) => {
                        &&& final(ledger).spec_repo_paused(pr.owner@, pr.repo@)
                        &&& forall|a: Seq<char>, b: Seq<char>|
                            old(ledger).spec_repo_paused(a, b)
                                ==> final(ledger).spec_repo_paused(a, b)
                        &&& forall|a: Seq<char>, b: Seq<char>|
                            final(ledger).spec_repo_paused(a, b)
                                ==> (old(ledger).spec_repo_paused(a, b) || (a == pr.owner@ && b
                                == pr.repo@))
                        &&& final(ledger).prs == old(ledger).prs
                        &&& final(ledger).executed_prs == old(ledger).executed_prs
                        &&& final(ledger).sloths_per_period == old(ledger).sloths_per_period
                        &&& final(ledger).user_streaks == old(ledger).user_streaks
                        &&& effects@.len() == 1
                        &&& is_reply(
                            effects@[0],
                            pr.owner@,
                            pr.repo@,
                            pr.number,
                            "We've paused this repository. From now on, we won't participate in this repository PRs but already scored PRs will be accepted after the merge"@,
                        )
                    },
                    Err(_) => false,
                }
            }),
    {
        ledger.sloth_pause(self.pr_metadata.owner.clone(), self.pr_metadata.repo.clone());
        let mut effects: Vec<Effect> = Vec::new();
        effects.push(
            Effect::Reply {
                owner: self.pr_metadata.owner.clone(),
                repo: self.pr_metadata.repo.clone(),
                number: self.pr_metadata.number,
                text: String::from_str(
                    "We've paused this repository. From now on, we won't participate in this repository PRs but already scored PRs will be accepted after the merge",
                ),
            },
        );
        Ok(effects)
    }
}

impl BotUnpaused {
    /// Execute `Unpause`: only a maintainer may, and a repository that is
    /// not paused is left alone.
    pub fn execute(&self, ledger: &mut Ledger) -> (r: Result<Vec<Effect>, LedgerError>)
        requires
            old(ledger).wf(),
        ensures
            final(ledger).wf(),
            ({
                let pr = self.pr_metadata;
                let info = old(ledger).spec_pr_info(pr.owner@, pr.repo@, pr.number);
                match r {
                    Ok(effects) => if !spec_is_maintainer(self.sender.contributor_type) {
                        *final(ledger) == *old(ledger) && effects@.len() == 0
                    } else if !info.allowed_repo {
                        &&& !final(ledger).spec_repo_paused(pr.owner@, pr.repo@)
                        &&& forall|a: Seq<char>, b: Seq<char>|
                            final(ledger).spec_repo_paused(a, b)
                                <==> (old(ledger).spec_repo_paused(a, b) && !(a == pr.owner@ && b
                                == pr.repo@))
                        &&& final(ledger).prs == old(ledger).prs
                        &&& final(ledger).executed_prs == old(ledger).executed_prs
                        &&& final(ledger).sloths_per_period == old(ledger).sloths_per_period
                        &&& final(ledger).user_streaks == old(ledger).user_streaks
                        &&& effects@.len() == 1
                        &&& is_reply(
                            effects@[0],
                            pr.owner@,
                            pr.repo@,
                            pr.number,
                            "We've unpaused this repository. Please, start us to include us in the given PR."@,
                        )
                    } else {
                        &&& *final(ledger) == *old(ledger)
                        &&& effects@.len() == 1
                        &&& is_reply(
                            effects@[0],
                            pr.owner@,
                            pr.repo@,
                            pr.number,
                            "Already unpaused."@,
                        )
                    },
                    Err(_) => false,
                }
            }),
    {
        let info = ledger.check_info(
            &self.pr_metadata.owner,
            &self.pr_metadata.repo,
            self.pr_metadata.number,
        );
        if !self.sender.is_maintainer() {
            return Ok(Vec::new());
        }
        if !info.allowed_repo {
            ledger.sloth_unpause(&self.pr_metadata.owner, &self.pr_metadata.repo);
            let mut effects: Vec<Effect> = Vec::new();
            effects.push(
                Effect::Reply {
                    owner: self.pr_metadata.owner.clone(),
                    repo: self.pr_metadata.repo.clone(),
                    number: self.pr_metadata.number,
                    text: String::from_str(
                        "We've unpaused this repository. Please, start us to include us in the given PR.",
                    ),
                },
            );
            Ok(effects)
        } else {
            let mut effects: Vec<Effect> = Vec::new();
            effects.push(
                Effect::Reply {
                    owner: self.pr_metadata.owner.clone(),
                    repo: self.pr_metadata.repo.clone(),
                    number: self.pr_metadata.number,
                    text: String::from_str("Already unpaused."),
                },
            );
            Ok(effects)
        }
    }
}

/// The stale action: a contribution that went quiet is flagged excluded.
#[derive(Debug, Clone)]
pub struct PullRequestStale {}

impl PullRequestStale {
    /// Execute the stale action against the passed gate snapshot: an
    /// already-merged contribution is left alone; otherwise the ledger is
    /// told regardless of the allow-list, and the user is addressed only on
    /// a watched repository whose pull request is still open. The returned
    /// flag says whether the user was (or would have been) addressed.
    pub fn execute(&self, pr: &PrMetadata, ledger: &mut Ledger, check_info: PRInfo) -> (r: (
        bool,
        Vec<Effect>,
    ))
        requires
            old(ledger).wf(),
        ensures
            final(ledger).wf(),
            ({
                let (notified, effects) = r;
                if check_info.merged {
                    &&& *final(ledger) == *old(ledger)
                    &&& !notified
                    &&& effects@.len() == 0
                } else {
                    &&& crate::kv::str_in_seq(final(ledger).excluded_prs@, pr.full_id@)
                    &&& final(ledger).prs@ == old(ledger).prs@.remove(pr.full_id@)
                    &&& final(ledger).executed_prs == old(ledger).executed_prs
                    &&& final(ledger).sloths_per_period == old(ledger).sloths_per_period
                    &&& final(ledger).user_streaks == old(ledger).user_streaks
                    &&& notified == check_info.allowed_repo
                    &&& if check_info.allowed_repo && !pr.closed {
                        effects@.len() == 1 && effects@[0] == (Effect::ReplyTemplate {
                            owner: pr.owner,
                            repo: pr.repo,
                            number: pr.number,
                            category: MsgCategory::StaleMessage,
                        })
                    } else {
                        effects@.len() == 0
                    }
                }
            }),
    {
        if check_info.merged {
            return (false, Vec::new());
        }
        ledger.sloth_stale(&pr.full_id);
        if !check_info.allowed_repo {
            return (false, Vec::new());
        }
        if pr.closed {
            return (true, Vec::new());
        }
        let mut effects: Vec<Effect> = Vec::new();
        effects.push(
            Effect::ReplyTemplate {
                owner: pr.owner.clone(),
                repo: pr.repo.clone(),
                number: pr.number,
                category: MsgCategory::StaleMessage,
            },
        );
        (true, effects)
    }
}

/// A confirmed merge observed on the platform.
#[derive(Debug)]
pub struct PullRequestMerged {
    pub pr_metadata: PrMetadata,
    pub timestamp: u64,
}

impl PullRequestMerged {
    /// Report the merge to the ledger. A snapshot with no merge timestamp
    /// is refused outright; otherwise the outcome is the ledger's.
    pub fn execute(&self, ledger: &mut Ledger) -> (r: Result<(), LedgerError>)
        requires
            old(ledger).wf(),
        ensures
            final(ledger).wf(),
            ({
                let id = self.pr_metadata.full_id@;
                match r {
                    Ok(()) => {
                        &&& self.pr_metadata.merged is Some
                        &&& old(ledger).prs@.contains_key(id)
                        &&& ({
                            let rec = merged_record(
                                old(ledger).prs@[id],
                                self.pr_metadata.merged->0,
                            );
                            if old(ledger).prs@[id].score is Some {
                                &&& executed_ok(*old(ledger), rec)
                                &&& executed_transition(*old(ledger), *final(ledger), id, rec)
                                &&& final(ledger).prs@ == old(ledger).prs@.remove(id)
                            } else {
                                &&& final(ledger).prs@ == old(ledger).prs@.insert(id, rec)
                                &&& only_prs_changed(*old(ledger), *final(ledger))
                            }
                        })
                    },
                    Err(LedgerError::NotMerged) => self.pr_metadata.merged is None
                        && *final(ledger) == *old(ledger),
                    Err(LedgerError::AlreadyExecuted) => {
                        &&& self.pr_metadata.merged is Some
                        &&& old(ledger).executed_prs@.contains_key(id)
                        &&& *final(ledger) == *old(ledger)
                    },
                    Err(LedgerError::UnknownContribution) => {
                        &&& self.pr_metadata.merged is Some
                        &&& !old(ledger).prs@.contains_key(id)
                        &&& !old(ledger).executed_prs@.contains_key(id)
                        &&& *final(ledger) == *old(ledger)
                    },
                    Err(LedgerError::CounterOverflow) => {
                        &&& self.pr_metadata.merged is Some
                        &&& old(ledger).prs@.contains_key(id)
                        &&& old(ledger).prs@[id].score is Some
                        &&& !executed_ok(
                            *old(ledger),
                            merged_record(old(ledger).prs@[id], self.pr_metadata.merged->0),
                        )
                        &&& final(ledger).prs@ == old(ledger).prs@
                        &&& only_prs_changed(*old(ledger), *final(ledger))
                    },
                    Err(_) => false,
                }
            }),
    {
        match self.pr_metadata.merged {
            None => Err(LedgerError::NotMerged),
            Some(merged_at) => ledger.sloth_merged(&self.pr_metadata.full_id, merged_at),
        }
    }
}

/// A score text is valid when it is a plain decimal number from one to ten.
pub open spec fn spec_valid_score(s: Seq<char>) -> bool {
    &&& s.len() > 0
    &&& all_digits(s)
    &&& 1 <= dec_value(s) <= 10
}

/// Validate a score text.
pub fn parse_score(s: &str) -> (r: Option<u8>)
    ensures
        match r {
            Some(n) => spec_valid_score(s@) && n as int == dec_value(s@),
            None => !spec_valid_score(s@),
        },
{
    match parse_u64(s) {
        Some(n) => if 1 <= n && n <= 10 {
            Some(n as u8)
        } else {
            None
        },
        None => None,
    }
}

} // verus!
