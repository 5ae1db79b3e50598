//! Message templates: categories, variable substitution, and the loader
//! that holds one template set per category.
//!
//! A template contains placeholders `{name}`. Substitution is a pure fold:
//! the result of `format` is one of the templates with each known variable
//! replaced, and `partial_format` bakes a fixed set of values into every
//! template. Only the choice among alternative templates is random.

use vstd::prelude::*;
use vstd::string::StringExecFns;
use crate::text::replace_spec;
use crate::text::replace_str;
use crate::text::concat_str;

verus! {

/// Every kind of reply the bot can post.
#[derive(Debug, Clone, Copy, Hash, PartialEq, Eq, Structural)]
pub enum MsgCategory {
    IncludeBasicMessage,
    CorrectNonzeroScoringMessage,
    CorrectZeroScoringMessage,
    CorrectableScoringMessage,
    ExcludeMessages,
    PauseMessage,
    UnpauseMessage,
    MergeWithoutScoreMessage,
    FinalMessage,
    StaleMessage,
    ErrorUnknownCommandMessage,
    ErrorRightsViolationMessage,
    ErrorLateIncludeMessage,
    ErrorPausePausedMessage,
    ErrorUnpauseUnpausedMessage,
    ErrorPausedMessage,
    ErrorLateScoringMessage,
    ErrorSelfScore,
    ErrorOrgNotInAllowedListMessage,
}

/// Relies on rand's `thread_rng` and `Rng::gen_range`: the result of
/// `gen_range(0..len)` lies in the (non-empty) range; nothing else can be
/// promised of a random draw.
#[verifier::external_body]
fn random_index(len: usize) -> (r: usize)
    requires
        len > 0,
    ensures
        r < len,
{
    rand::Rng::gen_range(&mut rand::thread_rng(), 0..len)
}

/// The placeholder for a variable: the name in braces.
pub open spec fn wrapped(key: Seq<char>) -> Seq<char> {
    "{"@ + key + "}"@
}

fn wrap_key(key: &String) -> (r: String)
    ensures
        r@ == wrapped(key@),
        r@.len() > 0,
{
    proof {
        reveal_strlit("{");
        reveal_strlit("}");
    }
    let s = concat_str("{", key.as_str());
    concat_str(s.as_str(), "}")
}

/// The value bound to a key, taking the first matching pair.
pub open spec fn lookup_value(values: Seq<(String, String)>, key: Seq<char>) -> Option<Seq<char>>
    decreases values.len(),
{
    if values.len() == 0 {
        None
    } else if values.first().0@ == key {
        Some(values.first().1@)
    } else {
        lookup_value(values.drop_first(), key)
    }
}

fn lookup_exec<'a>(values: &'a Vec<(String, String)>, key: &String) -> (r: Option<&'a String>)
    ensures
        match r {
            Some(v) => lookup_value(values@, key@) == Some(v@),
            None => lookup_value(values@, key@) is None,
        },
{
    let mut i: usize = 0;
    proof {
        assert(values@.skip(0) =~= values@);
    }
    while i < values.len()
        invariant
            0 <= i <= values@.len(),
            lookup_value(values@, key@) == lookup_value(values@.skip(i as int), key@),
        decreases values@.len() - i,
    {
        proof {
            assert(values@.skip(i as int).first() == values@[i as int]);
            assert(values@.skip(i as int).drop_first() =~= values@.skip(i + 1));
        }
        if values[i].0.eq(key) {
            return Some(&values[i].1);
        }
        i = i + 1;
    }
    proof {
        assert(values@.skip(values@.len() as int) =~= Seq::<(String, String)>::empty());
    }
    None
}

/// One substitution step: replace the placeholder of `var` if a value is
/// bound to it.
pub open spec fn subst_var(m: Seq<char>, var: Seq<char>, values: Seq<(String, String)>) -> Seq<
    char,
> {
    match lookup_value(values, var) {
        Some(val) => replace_spec(m, wrapped(var), val),
        None => m,
    }
}

/// Substitute every variable of `vars`, in order.
pub open spec fn apply_vars(
    m: Seq<char>,
    vars: Seq<String>,
    values: Seq<(String, String)>,
) -> Seq<char>
    decreases vars.len(),
{
    if vars.len() == 0 {
        m
    } else {
        apply_vars(subst_var(m, vars.first()@, values), vars.drop_first(), values)
    }
}

/// Substitute every pair of `values`, in order, whether or not the template
/// declares the variable.
pub open spec fn apply_pairs(m: Seq<char>, values: Seq<(String, String)>) -> Seq<char>
    decreases values.len(),
{
    if values.len() == 0 {
        m
    } else {
        apply_pairs(
            replace_spec(m, wrapped(values.first().0@), values.first().1@),
            values.drop_first(),
        )
    }
}

/// Whether some pair binds `key`.
pub open spec fn has_key(values: Seq<(String, String)>, key: Seq<char>) -> bool {
    exists|i: int| 0 <= i < values.len() && (#[trigger] values[i]).0@ == key
}

/// The variables that stay after the keys of `values` are baked in.
pub open spec fn vars_kept(vars: Seq<String>, values: Seq<(String, String)>) -> Seq<String>
    decreases vars.len(),
{
    if vars.len() == 0 {
        Seq::empty()
    } else {
        vars_kept(vars.drop_last(), values) + (if has_key(values, vars.last()@) {
            Seq::<String>::empty()
        } else {
            seq![vars.last()]
        })
    }
}

proof fn lemma_lookup_has_key(values: Seq<(String, String)>, key: Seq<char>)
    ensures
        lookup_value(values, key) is Some <==> has_key(values, key),
    decreases values.len(),
{
    if values.len() > 0 {
        lemma_lookup_has_key(values.drop_first(), key);
        if values.first().0@ == key {
            assert(values[0].0@ == key);
        } else {
            if has_key(values.drop_first(), key) {
                let i = choose|i: int|
                    0 <= i < values.drop_first().len() && (#[trigger] values.drop_first()[i]).0@
                        == key;
                assert(values[i + 1].0@ == key);
            }
            if has_key(values, key) {
                let i = choose|i: int| 0 <= i < values.len() && (#[trigger] values[i]).0@ == key;
                assert(i != 0);
                assert(values.drop_first()[i - 1].0@ == key);
            }
        }
    }
}

/// A template set: alternative texts and the variables they expect.
#[derive(Debug)]
pub struct Messages {
    pub message: Vec<String>,
    pub variables: Vec<String>,
}

impl Clone for Messages {
    fn clone(&self) -> (r: Self)
        ensures
            r.message@.len() == self.message@.len(),
            forall|i: int|
                0 <= i < self.message@.len() ==> (#[trigger] r.message@[i])@ == self.message@[i]@,
            r.variables@.len() == self.variables@.len(),
            forall|i: int|
                0 <= i < self.variables@.len() ==> (#[trigger] r.variables@[i])@
                    == self.variables@[i]@,
    {
        let mut message: Vec<String> = Vec::new();
        let mut i: usize = 0;
        while i < self.message.len()
            invariant
                0 <= i <= self.message@.len(),
                message@.len() == i,
                forall|j: int|
                    0 <= j < i ==> (#[trigger] message@[j])@ == self.message@[j]@,
            decreases self.message@.len() - i,
        {
            message.push(self.message[i].clone());
            i = i + 1;
        }
        let mut variables: Vec<String> = Vec::new();
        let mut k: usize = 0;
        while k < self.variables.len()
            invariant
                0 <= k <= self.variables@.len(),
                variables@.len() == k,
                forall|j: int|
                    0 <= j < k ==> (#[trigger] variables@[j])@ == self.variables@[j]@,
            decreases self.variables@.len() - k,
        {
            variables.push(self.variables[k].clone());
            k = k + 1;
        }
        Messages { message, variables }
    }
}

impl Messages {
    pub fn new(message: Vec<String>, variables: Vec<String>) -> (r: Self)
        ensures
            r.message == message,
            r.variables == variables,
    {
        Self { message, variables }
    }

    /// Render one of the templates (chosen at random) with the given
    /// values; variables with no binding stay in place. `None` exactly when
    /// the set has no template.
    pub fn format(&self, values: &Vec<(String, String)>) -> (r: Option<String>)
        ensures
            match r {
                Some(s) => self.message@.len() > 0 && exists|i: int|
                    0 <= i < self.message@.len() && s@ == apply_vars(
                        (#[trigger] self.message@[i])@,
                        self.variables@,
                        values@,
                    ),
                None => self.message@.len() == 0,
            },
    {
        if self.message.len() == 0 {
            return None;
        }
        let pick = random_index(self.message.len());
        let ghost orig = self.message@[pick as int]@;
        let mut m = self.message[pick].clone();
        let mut j: usize = 0;
        proof {
            assert(self.variables@.skip(0) =~= self.variables@);
        }
        while j < self.variables.len()
            invariant
                0 <= j <= self.variables@.len(),
                apply_vars(orig, self.variables@, values@) == apply_vars(
                    m@,
                    self.variables@.skip(j as int),
                    values@,
                ),
            decreases self.variables@.len() - j,
        {
            proof {
                assert(self.variables@.skip(j as int).first() == self.variables@[j as int]);
                assert(self.variables@.skip(j as int).drop_first() =~= self.variables@.skip(j + 1));
            }
            match lookup_exec(values, &self.variables[j]) {
                Some(val) => {
                    let pat = wrap_key(&self.variables[j]);
                    m = replace_str(m.as_str(), pat.as_str(), val.as_str());
                },
                None => {
                },
            }
            j = j + 1;
        }
        proof {
            assert(self.variables@.skip(self.variables@.len() as int) =~= Seq::<String>::empty());
        }
        Some(m)
    }

    /// Bake the given values into every template and drop the variables
    /// they bind.
    pub fn partial_format(&mut self, values: &Vec<(String, String)>)
        ensures
            final(self).message@.len() == old(self).message@.len(),
            forall|i: int|
                0 <= i < old(self).message@.len() ==> (#[trigger] final(self).message@[i])@
                    == apply_pairs(old(self).message@[i]@, values@),
            final(self).variables@ == vars_kept(old(self).variables@, values@),
    {
        let mut new_msgs: Vec<String> = Vec::new();
        let mut i: usize = 0;
        while i < self.message.len()
            invariant
                *self == *old(self),
                0 <= i <= self.message@.len(),
                new_msgs@.len() == i,
                forall|k: int|
                    0 <= k < i ==> (#[trigger] new_msgs@[k])@ == apply_pairs(
                        old(self).message@[k]@,
                        values@,
                    ),
            decreases self.message@.len() - i,
        {
            let ghost orig = self.message@[i as int]@;
            let mut m = self.message[i].clone();
            let mut j: usize = 0;
            proof {
                assert(values@.skip(0) =~= values@);
            }
            while j < values.len()
                invariant
                    0 <= j <= values@.len(),
                    apply_pairs(orig, values@) == apply_pairs(m@, values@.skip(j as int)),
                decreases values@.len() - j,
            {
                proof {
                    assert(values@.skip(j as int).first() == values@[j as int]);
                    assert(values@.skip(j as int).drop_first() =~= values@.skip(j + 1));
                }
                let pat = wrap_key(&values[j].0);
                m = replace_str(m.as_str(), pat.as_str(), values[j].1.as_str());
                j = j + 1;
            }
            proof {
                assert(values@.skip(values@.len() as int) =~= Seq::<(String, String)>::empty());
            }
            new_msgs.push(m);
            i = i + 1;
        }
        self.message = new_msgs;

        let mut new_vars: Vec<String> = Vec::new();
        let mut k: usize = 0;
        proof {
            assert(self.variables@.take(0) =~= Seq::<String>::empty());
        }
        while k < self.variables.len()
            invariant
                self.variables == old(self).variables,
                0 <= k <= self.variables@.len(),
                new_vars@ == vars_kept(self.variables@.take(k as int), values@),
            decreases self.variables@.len() - k,
        {
            proof {
                assert(self.variables@.take(k + 1).drop_last() =~= self.variables@.take(k as int));
                assert(self.variables@.take(k + 1).last() == self.variables@[k as int]);
                lemma_lookup_has_key(values@, self.variables@[k as int]@);
            }
            match lookup_exec(values, &self.variables[k]) {
                Some(_) => {
                    proof {
                        assert(new_vars@ =~= vars_kept(self.variables@.take(k + 1), values@));
                    }
                },
                None => {
                    new_vars.push(self.variables[k].clone());
                    proof {
                        assert(new_vars@ =~= vars_kept(self.variables@.take(k + 1), values@));
                    }
                },
            }
            k = k + 1;
        }
        proof {
            assert(self.variables@.take(self.variables@.len() as int) =~= self.variables@);
        }
        self.variables = new_vars;
    }
}

/// Template set views match pointwise after baking in `ps`.
pub open spec fn msgs_rel(pre: Messages, post: Messages, ps: Seq<(String, String)>) -> bool {
    &&& post.message@.len() == pre.message@.len()
    &&& forall|i: int|
        0 <= i < pre.message@.len() ==> (#[trigger] post.message@[i])@ == apply_pairs(
            pre.message@[i]@,
            ps,
        )
    &&& post.variables@ == vars_kept(pre.variables@, ps)
}

/// Two template sets have the same texts and variables.
pub open spec fn msgs_eq_views(a: Messages, b: Messages) -> bool {
    &&& a.message@.len() == b.message@.len()
    &&& forall|i: int| 0 <= i < b.message@.len() ==> (#[trigger] a.message@[i])@ == b.message@[i]@
    &&& a.variables@.len() == b.variables@.len()
    &&& forall|i: int|
        0 <= i < b.variables@.len() ==> (#[trigger] a.variables@[i])@ == b.variables@[i]@
}

/// One template set per category, plus the links every template may refer
/// to.
#[derive(Debug)]
pub struct MessageLoader {
    pub link: String,
    pub leaderboard_link: String,
    pub form: String,
    pub picture_api_link: String,
    pub include_basic_messages: Messages,
    pub correct_nonzero_scoring_messages: Messages,
    pub correct_zero_scoring_messages: Messages,
    pub correctable_scoring_messages: Messages,
    pub exclude_messages: Messages,
    pub pause_messages: Messages,
    pub unpause_messages: Messages,
    pub merge_without_score_messages: Messages,
    pub final_messages: Messages,
    pub stale_messages: Messages,
    pub error_unknown_command_messages: Messages,
    pub error_rights_violation_messages: Messages,
    pub error_late_include_messages: Messages,
    pub error_late_scoring_messages: Messages,
    pub error_pause_paused_messages: Messages,
    pub error_unpause_unpaused_messages: Messages,
    pub error_paused_messages: Messages,
    pub error_selfscore_messages: Messages,
    pub error_org_not_in_allowed_list_messages: Messages,
}

/// The five values every template set gets at load time.
pub open spec fn standard_pairs_ok(
    pre: MessageLoader,
    bot: Seq<char>,
    ps: Seq<(String, String)>,
) -> bool {
    &&& ps.len() == 5
    &&& ps[0].0@ == "link"@ && ps[0].1@ == pre.link@
    &&& ps[1].0@ == "leaderboard_link"@ && ps[1].1@ == pre.leaderboard_link@
    &&& ps[2].0@ == "bot_name"@ && ps[2].1@ == bot
    &&& ps[3].0@ == "form"@ && ps[3].1@ == pre.form@
    &&& ps[4].0@ == "picture_api_link"@ && ps[4].1@ == pre.picture_api_link@
}

/// The template set for a category.
pub open spec fn category_field(l: MessageLoader, category: MsgCategory) -> Messages {
    match category {
        MsgCategory::IncludeBasicMessage => l.include_basic_messages,
        MsgCategory::CorrectNonzeroScoringMessage => l.correct_nonzero_scoring_messages,
        MsgCategory::CorrectZeroScoringMessage => l.correct_zero_scoring_messages,
        MsgCategory::CorrectableScoringMessage => l.correctable_scoring_messages,
        MsgCategory::ExcludeMessages => l.exclude_messages,
        MsgCategory::PauseMessage => l.pause_messages,
        MsgCategory::UnpauseMessage => l.unpause_messages,
        MsgCategory::MergeWithoutScoreMessage => l.merge_without_score_messages,
        MsgCategory::FinalMessage => l.final_messages,
        MsgCategory::StaleMessage => l.stale_messages,
        MsgCategory::ErrorUnknownCommandMessage => l.error_unknown_command_messages,
        MsgCategory::ErrorRightsViolationMessage => l.error_rights_violation_messages,
        MsgCategory::ErrorLateIncludeMessage => l.error_late_include_messages,
        MsgCategory::ErrorLateScoringMessage => l.error_late_scoring_messages,
        MsgCategory::ErrorSelfScore => l.error_selfscore_messages,
        MsgCategory::ErrorOrgNotInAllowedListMessage => l.error_org_not_in_allowed_list_messages,
        MsgCategory::ErrorPausePausedMessage => l.error_pause_paused_messages,
        MsgCategory::ErrorUnpauseUnpausedMessage => l.error_unpause_unpaused_messages,
        MsgCategory::ErrorPausedMessage => l.error_paused_messages,
    }
}

impl MessageLoader {
    /// Bake the link values and the bot's handle into every template set.
    pub fn postprocess_messages_with_link(&mut self, bot_name: &String)
        ensures
            exists|ps: Seq<(String, String)>|
                {
                    &&& standard_pairs_ok(*old(self), bot_name@, ps)
                    &&& msgs_rel(
                        old(self).include_basic_messages,
                        final(self).include_basic_messages,
                        ps,
                    )
                    &&& msgs_rel(
                        old(self).correct_nonzero_scoring_messages,
                        final(self).correct_nonzero_scoring_messages,
                        ps,
                    )
                    &&& msgs_rel(
                        old(self).correct_zero_scoring_messages,
                        final(self).correct_zero_scoring_messages,
                        ps,
                    )
                    &&& msgs_rel(
                        old(self).correctable_scoring_messages,
                        final(self).correctable_scoring_messages,
                        ps,
                    )
                    &&& msgs_rel(old(self).exclude_messages, final(self).exclude_messages, ps)
                    &&& msgs_rel(old(self).pause_messages, final(self).pause_messages, ps)
                    &&& msgs_rel(old(self).unpause_messages, final(self).unpause_messages, ps)
                    &&& msgs_rel(
                        old(self).merge_without_score_messages,
                        final(self).merge_without_score_messages,
                        ps,
                    )
                    &&& msgs_rel(old(self).final_messages, final(self).final_messages, ps)
                    &&& msgs_rel(old(self).stale_messages, final(self).stale_messages, ps)
                    &&& msgs_rel(
                        old(self).error_unknown_command_messages,
                        final(self).error_unknown_command_messages,
                        ps,
                    )
                    &&& msgs_rel(
                        old(self).error_rights_violation_messages,
                        final(self).error_rights_violation_messages,
                        ps,
                    )
                    &&& msgs_rel(
                        old(self).error_late_include_messages,
                        final(self).error_late_include_messages,
                        ps,
                    )
                    &&& msgs_rel(
                        old(self).error_late_scoring_messages,
                        final(self).error_late_scoring_messages,
                        ps,
                    )
                    &&& msgs_rel(
                        old(self).error_pause_paused_messages,
                        final(self).error_pause_paused_messages,
                        ps,
                    )
                    &&& msgs_rel(
                        old(self).error_unpause_unpaused_messages,
                        final(self).error_unpause_unpaused_messages,
                        ps,
                    )
                    &&& msgs_rel(
                        old(self).error_paused_messages,
                        final(self).error_paused_messages,
                        ps,
                    )
                    &&& msgs_rel(
                        old(self).error_selfscore_messages,
                        final(self).error_selfscore_messages,
                        ps,
                    )
                    &&& msgs_rel(
                        old(self).error_org_not_in_allowed_list_messages,
                        final(self).error_org_not_in_allowed_list_messages,
                        ps,
                    )
                },
            final(self).link == old(self).link,
            final(self).leaderboard_link == old(self).leaderboard_link,
            final(self).form == old(self).form,
            final(self).picture_api_link == old(self).picture_api_link,
    {
        let mut values: Vec<(String, String)> = Vec::new();
        values.push((String::from_str("link"), self.link.clone()));
        values.push((String::from_str("leaderboard_link"), self.leaderboard_link.clone()));
        values.push((String::from_str("bot_name"), bot_name.clone()));
        values.push((String::from_str("form"), self.form.clone()));
        values.push((String::from_str("picture_api_link"), self.picture_api_link.clone()));
        let ghost ps = values@;
        self.include_basic_messages.partial_format(&values);
        self.correct_nonzero_scoring_messages.partial_format(&values);
        self.correct_zero_scoring_messages.partial_format(&values);
        self.correctable_scoring_messages.partial_format(&values);
        self.exclude_messages.partial_format(&values);
        self.pause_messages.partial_format(&values);
        self.unpause_messages.partial_format(&values);
        self.merge_without_score_messages.partial_format(&values);
        self.final_messages.partial_format(&values);
        self.stale_messages.partial_format(&values);
        self.error_unknown_command_messages.partial_format(&values);
        self.error_rights_violation_messages.partial_format(&values);
        self.error_late_include_messages.partial_format(&values);
        self.error_late_scoring_messages.partial_format(&values);
        self.error_pause_paused_messages.partial_format(&values);
        self.error_unpause_unpaused_messages.partial_format(&values);
        self.error_paused_messages.partial_format(&values);
        self.error_selfscore_messages.partial_format(&values);
        self.error_org_not_in_allowed_list_messages.partial_format(&values);
        proof {
            assert(standard_pairs_ok(*old(self), bot_name@, ps));
            assert(msgs_rel(old(self).include_basic_messages, self.include_basic_messages, ps));
        }
    }

    /// The template set for a category, copied out.
    pub fn get_message(&self, category: MsgCategory) -> (r: Messages)
        ensures
            msgs_eq_views(r, category_field(*self, category)),
    {
        let elem = match category {
            MsgCategory::IncludeBasicMessage => &self.include_basic_messages,
            MsgCategory::CorrectNonzeroScoringMessage => &self.correct_nonzero_scoring_messages,
            MsgCategory::CorrectZeroScoringMessage => &self.correct_zero_scoring_messages,
            MsgCategory::CorrectableScoringMessage => &self.correctable_scoring_messages,
            MsgCategory::ExcludeMessages => &self.exclude_messages,
            MsgCategory::PauseMessage => &self.pause_messages,
            MsgCategory::UnpauseMessage => &self.unpause_messages,
            MsgCategory::MergeWithoutScoreMessage => &self.merge_without_score_messages,
            MsgCategory::FinalMessage => &self.final_messages,
            MsgCategory::StaleMessage => &self.stale_messages,
            MsgCategory::ErrorUnknownCommandMessage => &self.error_unknown_command_messages,
            MsgCategory::ErrorRightsViolationMessage => &self.error_rights_violation_messages,
            MsgCategory::ErrorLateIncludeMessage => &self.error_late_include_messages,
            MsgCategory::ErrorLateScoringMessage => &self.error_late_scoring_messages,
            MsgCategory::ErrorSelfScore => &self.error_selfscore_messages,
            MsgCategory::ErrorOrgNotInAllowedListMessage => {
                &self.error_org_not_in_allowed_list_messages
            },
            MsgCategory::ErrorPausePausedMessage => &self.error_pause_paused_messages,
            MsgCategory::ErrorUnpauseUnpausedMessage => &self.error_unpause_unpaused_messages,
            MsgCategory::ErrorPausedMessage => &self.error_paused_messages,
        };
        elem.clone()
    }
}

} // verus!
