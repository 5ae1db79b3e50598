//! Event extraction: turning fetched notifications with their comment
//! threads into an ordered stream of typed events.
//!
//! Comments are walked newest first and the walk stops at the bot's own most
//! recent reply — the replay boundary: nothing at or before it is ever
//! re-processed. A state-change notification whose pull request reports a
//! merge additionally yields a merge event. The polling cursor advances to
//! the greatest update time seen and never moves backward.

use vstd::prelude::*;
use crate::commands::BotPaused;
use crate::commands::BotScored;
use crate::commands::BotStarted;
use crate::commands::BotUnpaused;
use crate::commands::Command;
use crate::commands::PullRequestMerged;
use crate::commands::spec_phrase;
use crate::github::Comment;
use crate::github::Notification;
use crate::github::PrMetadata;
use crate::github::comment_text;
use crate::text::contains_seq;
use crate::text::find_first;
use crate::text::line_spec;
use crate::text::trim_spec;

verus! {

/// A notification together with what was fetched for it: the pull-request
/// snapshot (absent when the fetch failed — the item is then skipped) and
/// the full comment thread, oldest first.
pub struct NotificationThread {
    pub notification: Notification,
    pub pr: Option<PrMetadata>,
    pub comments: Vec<Comment>,
}

/// A domain event: a parsed command, or an observed merge.
#[derive(Debug)]
pub enum Event {
    Command(Command),
    Merged(PullRequestMerged),
}

/// The shape of a parsed command, for specification only: who triggered it,
/// from which comment, with which score text.
pub enum CommandRepr {
    Start { sender: Seq<char>, comment_id: u64 },
    Score { sender: Seq<char>, score_text: Seq<char>, comment_id: u64 },
    Pause { sender: Seq<char>, comment_id: u64 },
    Unpause { sender: Seq<char>, comment_id: u64 },
}

/// The shape of an extracted event, for specification only.
pub enum EventRepr {
    Cmd { pr: Seq<char>, c: CommandRepr },
    Merged { pr: Seq<char>, timestamp: u64 },
}

/// The shape of a command value.
pub open spec fn command_repr(c: Command) -> CommandRepr {
    match c {
        Command::Start(s) => CommandRepr::Start {
            sender: s.sender_login@,
            comment_id: s.comment_id,
        },
        Command::Score(s) => CommandRepr::Score {
            sender: s.sender.login@,
            score_text: s.score@,
            comment_id: s.comment_id,
        },
        Command::Pause(p) => CommandRepr::Pause { sender: p.sender.login@, comment_id: p.comment_id },
        Command::Unpause(u) => CommandRepr::Unpause {
            sender: u.sender.login@,
            comment_id: u.comment_id,
        },
    }
}

/// The shape of an event value.
pub open spec fn event_repr(e: Event) -> EventRepr {
    match e {
        Event::Command(c) => EventRepr::Cmd { pr: command_pr_id(c), c: command_repr(c) },
        Event::Merged(m) => EventRepr::Merged {
            pr: m.pr_metadata.full_id@,
            timestamp: m.timestamp,
        },
    }
}

/// The full id of the contribution a command addresses.
pub open spec fn command_pr_id(c: Command) -> Seq<char> {
    match c {
        Command::Start(s) => s.pr_metadata.full_id@,
        Command::Score(s) => s.pr_metadata.full_id@,
        Command::Pause(p) => p.pr_metadata.full_id@,
        Command::Unpause(u) => u.pr_metadata.full_id@,
    }
}

/// Which command a comment triggers, if any: the first matching trigger
/// phrase wins, in the fixed order include, score, pause, unpause.
pub open spec fn spec_parse_repr(bot: Seq<char>, c: Comment) -> Option<CommandRepr> {
    let text = comment_text(c);
    if contains_seq(text, spec_phrase(bot, " include"@)) {
        Some(CommandRepr::Start { sender: c.user.login@, comment_id: c.id })
    } else if find_first(text, spec_phrase(bot, " score"@)) is Some {
        let phrase = spec_phrase(bot, " score"@);
        let at = find_first(text, phrase)->0;
        Some(
            CommandRepr::Score {
                sender: c.user.login@,
                score_text: trim_spec(
                    line_spec(text.subrange(at + phrase.len(), text.len() as int)),
                ),
                comment_id: c.id,
            },
        )
    } else if contains_seq(text, spec_phrase(bot, " pause"@)) {
        Some(CommandRepr::Pause { sender: c.user.login@, comment_id: c.id })
    } else if contains_seq(text, spec_phrase(bot, " unpause"@)) {
        Some(CommandRepr::Unpause { sender: c.user.login@, comment_id: c.id })
    } else {
        None
    }
}

/// Map a comment to at most one command.
pub fn parse_command(
    bot_name: &String,
    notification: &Notification,
    pr_metadata: &PrMetadata,
    comment: &Comment,
) -> (r: Option<Command>)
    ensures
        match r {
            Some(cmd) => {
                &&& spec_parse_repr(bot_name@, *comment) == Some(command_repr(cmd))
                &&& command_pr_id(cmd) == pr_metadata.full_id@
            },
            None => spec_parse_repr(bot_name@, *comment) is None,
        },
{
    proof {
        crate::text::lemma_find_first_contains(
            comment_text(*comment),
            spec_phrase(bot_name@, " score"@),
        );
    }
    if let Some(c) = BotStarted::parse_comment(bot_name, notification, pr_metadata, comment) {
        return Some(Command::Start(c));
    }
    if let Some(c) = BotScored::parse_comment(bot_name, notification, pr_metadata, comment) {
        return Some(Command::Score(c));
    }
    if let Some(c) = BotPaused::parse_command(bot_name, pr_metadata, comment) {
        return Some(c);
    }
    if let Some(c) = BotUnpaused::parse_command(bot_name, pr_metadata, comment) {
        return Some(c);
    }
    None
}

/// The commands extracted from a thread: walking from the newest comment
/// down, stopping at the bot's own reply.
pub open spec fn spec_scan(bot: Seq<char>, comments: Seq<Comment>) -> Seq<CommandRepr>
    decreases comments.len(),
{
    if comments.len() == 0 {
        Seq::empty()
    } else if comments.last().user.login@ == bot {
        Seq::empty()
    } else {
        (match spec_parse_repr(bot, comments.last()) {
            Some(c) => seq![c],
            None => Seq::<CommandRepr>::empty(),
        }) + spec_scan(bot, comments.drop_last())
    }
}

/// The events one thread yields.
pub open spec fn spec_thread_reprs(bot: Seq<char>, t: NotificationThread) -> Seq<EventRepr> {
    if !t.notification.spec_relevant() || t.pr is None {
        Seq::empty()
    } else {
        let pr_id = t.pr->0.full_id@;
        let cmds = spec_scan(bot, t.comments@).map_values(
            |c: CommandRepr| EventRepr::Cmd { pr: pr_id, c },
        );
        if t.notification.reason is StateChange && t.pr->0.merged is Some {
            cmds.push(
                EventRepr::Merged { pr: pr_id, timestamp: t.notification.updated_at },
            )
        } else {
            cmds
        }
    }
}

/// Replay boundary: a mention thread whose newest comment is the bot's own
/// reply yields no events at all.
pub proof fn lemma_replay_boundary(bot: Seq<char>, t: NotificationThread)
    requires
        t.notification.spec_relevant(),
        t.notification.reason is Mention,
        t.pr is Some,
        t.comments@.len() > 0,
        t.comments@.last().user.login@ == bot,
    ensures
        spec_thread_reprs(bot, t).len() == 0,
{
    assert(spec_scan(bot, t.comments@) =~= Seq::<CommandRepr>::empty());
}

/// Extract the events of one thread.
#[verifier::loop_isolation(false)]
pub fn thread_events(bot_name: &String, thread: &NotificationThread) -> (r: Vec<Event>)
    ensures
        r@.map_values(|e: Event| event_repr(e)) == spec_thread_reprs(bot_name@, *thread),
{
    let mut events: Vec<Event> = Vec::new();
    if !thread.notification.relevant() {
        proof {
            assert(events@.map_values(|e: Event| event_repr(e)) =~= spec_thread_reprs(
                bot_name@,
                *thread,
            ));
        }
        return events;
    }
    let pr = match &thread.pr {
        Some(p) => p,
        None => {
            proof {
                assert(events@.map_values(|e: Event| event_repr(e)) =~= spec_thread_reprs(
                    bot_name@,
                    *thread,
                ));
            }
            return events;
        },
    };
    let ghost pr_id = pr.full_id@;
    let ghost full = thread.comments@;
    let mut i: usize = thread.comments.len();
    let mut stopped = false;
    proof {
        assert(full.take(full.len() as int) =~= full);
    }
    while i > 0 && !stopped
        invariant
            0 <= i <= full.len(),
            !stopped ==> spec_scan(bot_name@, full).map_values(
                |c: CommandRepr| EventRepr::Cmd { pr: pr_id, c },
            ) =~= events@.map_values(|e: Event| event_repr(e)) + spec_scan(
                bot_name@,
                full.take(i as int),
            ).map_values(|c: CommandRepr| EventRepr::Cmd { pr: pr_id, c }),
            stopped ==> spec_scan(bot_name@, full).map_values(
                |c: CommandRepr| EventRepr::Cmd { pr: pr_id, c },
            ) =~= events@.map_values(|e: Event| event_repr(e)),
        decreases i, (if stopped {
            0int
        } else {
            1int
        }),
    {
        let c = &thread.comments[i - 1];
        proof {
            assert(full.take(i as int).last() == full[i - 1]);
            assert(full.take(i as int).drop_last() =~= full.take(i - 1));
        }
        if c.user.login.eq(bot_name) {
            stopped = true;
            proof {
                assert(spec_scan(bot_name@, full.take(i as int)) =~= Seq::<CommandRepr>::empty());
            }
        } else {
            let ghost pre_events = events@;
            match parse_command(bot_name, &thread.notification, pr, c) {
                Some(cmd) => {
                    events.push(Event::Command(cmd));
                    proof {
                        assert(events@.map_values(|e: Event| event_repr(e)) =~= pre_events.map_values(
                            |e: Event| event_repr(e),
                        ).push(event_repr(Event::Command(cmd))));
                    }
                },
                None => {
                },
            }
            i = i - 1;
        }
    }
    proof {
        if !stopped {
            assert(full.take(0) =~= Seq::<Comment>::empty());
        }
    }
    if matches!(thread.notification.reason, crate::github::NotificationReason::StateChange)
        && pr.merged.is_some() {
        let ghost pre_events = events@;
        events.push(
            Event::Merged(
                PullRequestMerged {
                    pr_metadata: pr.clone(),
                    timestamp: thread.notification.updated_at,
                },
            ),
        );
        proof {
            assert(events@.map_values(|e: Event| event_repr(e)) =~= pre_events.map_values(
                |e: Event| event_repr(e),
            ).push(
                EventRepr::Merged { pr: pr_id, timestamp: thread.notification.updated_at },
            ));
        }
    }
    proof {
        assert(events@.map_values(|e: Event| event_repr(e)) =~= spec_thread_reprs(
            bot_name@,
            *thread,
        ));
    }
    events
}

/// The cursor after seeing the notifications of a batch: the greatest
/// update time, never less than where it started.
pub open spec fn spec_cursor(since: u64, threads: Seq<NotificationThread>) -> int
    decreases threads.len(),
{
    if threads.len() == 0 {
        since as int
    } else {
        let rest = spec_cursor(since, threads.drop_last());
        if threads.last().notification.updated_at > rest {
            threads.last().notification.updated_at as int
        } else {
            rest
        }
    }
}

/// Extract all events of a batch, in notification order, and advance the
/// cursor. The cursor is monotonic: it never moves backward.
#[verifier::loop_isolation(false)]
pub fn extract_events(bot_name: &String, since: u64, threads: &Vec<NotificationThread>) -> (r: (
    Vec<Event>,
    u64,
))
    ensures
        ({
            let (events, new_since) = r;
            &&& events@.map_values(|e: Event| event_repr(e)) == spec_all_reprs(
                bot_name@,
                threads@,
            )
            &&& new_since as int == spec_cursor(since, threads@)
            &&& new_since >= since
        }),
{
    let mut events: Vec<Event> = Vec::new();
    let mut cursor = since;
    let mut i: usize = 0;
    proof {
        assert(threads@.take(0) =~= Seq::<NotificationThread>::empty());
        assert(events@.map_values(|e: Event| event_repr(e)) =~= spec_all_reprs(
            bot_name@,
            threads@.take(0),
        ));
    }
    while i < threads.len()
        invariant
            0 <= i <= threads@.len(),
            events@.map_values(|e: Event| event_repr(e)) == spec_all_reprs(
                bot_name@,
                threads@.take(i as int),
            ),
            cursor as int == spec_cursor(since, threads@.take(i as int)),
            cursor >= since,
        decreases threads@.len() - i,
    {
        proof {
            assert(threads@.take(i + 1).last() == threads@[i as int]);
            assert(threads@.take(i + 1).drop_last() =~= threads@.take(i as int));
        }
        let n_updated = threads[i].notification.updated_at;
        if n_updated > cursor {
            cursor = n_updated;
        }
        let ghost pre_events = events@;
        let mut te = thread_events(bot_name, &threads[i]);
        let ghost te_view = te@;
        events.append(&mut te);
        proof {
            assert(events@.map_values(|e: Event| event_repr(e)) =~= pre_events.map_values(
                |e: Event| event_repr(e),
            ) + te_view.map_values(|e: Event| event_repr(e)));
        }
        i = i + 1;
    }
    proof {
        assert(threads@.take(threads@.len() as int) =~= threads@);
    }
    (events, cursor)
}

/// The events of a whole batch, thread after thread.
pub open spec fn spec_all_reprs(bot: Seq<char>, threads: Seq<NotificationThread>) -> Seq<
    EventRepr,
>
    decreases threads.len(),
{
    if threads.len() == 0 {
        Seq::empty()
    } else {
        spec_all_reprs(bot, threads.drop_last()) + spec_thread_reprs(bot, threads.last())
    }
}

} // verus!
