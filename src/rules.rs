use vstd::prelude::*;
use crate::config::Action;
use rand::Rng;
use crate::pattern::{regex_matches, regex_replaced, ConfigError, Pattern};

verus! {

/// Length of the random text that replaces each match of a scrambling rule.
pub const SCRAMBLE_LEN: usize = 7;

/// `template` with each `{}` replaced by `value`, scanning left to right.
pub open spec fn fill_spec(template: Seq<char>, value: Seq<char>) -> Seq<char>
    decreases template.len(),
{
    if template.len() == 0 {
        template
    } else if template.len() >= 2 && template[0] == '{' && template[1] == '}' {
        value + fill_spec(template.subrange(2, template.len() as int), value)
    } else {
        seq![template[0]] + fill_spec(template.subrange(1, template.len() as int), value)
    }
}

pub open spec fn is_ascii_alphanumeric(c: char) -> bool {
    ('a' <= c && c <= 'z') || ('A' <= c && c <= 'Z') || ('0' <= c && c <= '9')
}

/// Relies on str::replace: every non-overlapping `{}`, from the left, is
/// replaced by `value`.
#[verifier::external_body]
fn replace_placeholder(template: &str, value: &str) -> (r: String)
    ensures
        r@ == fill_spec(template@, value@),
{
    template.replace("{}", value)
}

/// Relies on rand's thread_rng sampled with rand::distributions::Alphanumeric:
/// each character is one of `A-Z`, `a-z`, `0-9`.
#[verifier::external_body]
fn random_alphanumeric(len: usize) -> (r: String)
    ensures
        r@.len() == len,
        forall|i: int| 0 <= i < r@.len() ==> is_ascii_alphanumeric(#[trigger] r@[i]),
{
    rand::thread_rng().sample_iter(&rand::distributions::Alphanumeric).take(len).map(char::from).collect()
}

/// The command of an executing rule: `command_pattern` with `{}` standing
/// for the working value.
pub fn fill_command(command_pattern: &str, value: &str) -> (r: String)
    ensures
        r@ == fill_spec(command_pattern@, value@),
{
    replace_placeholder(command_pattern, value)
}

/// A fresh random text to put in place of scrambled matches.
pub fn scramble_token() -> (r: String)
    ensures
        r@.len() == SCRAMBLE_LEN,
        forall|i: int| 0 <= i < r@.len() ==> is_ascii_alphanumeric(#[trigger] r@[i]),
{
    random_alphanumeric(SCRAMBLE_LEN)
}

/// Something to do outside once a rule has applied.
#[derive(Debug, Clone, PartialEq)]
pub enum Effect {
    /// Put this text on the clipboard.
    WriteClipboard { text: String },
    /// Run this shell command.
    RunCommand { command: String },
}

pub enum EffectView {
    WriteClipboard(Seq<char>),
    RunCommand(Seq<char>),
}

impl View for Effect {
    type V = EffectView;

    open spec fn view(&self) -> EffectView {
        match self {
            Effect::WriteClipboard { text } => EffectView::WriteClipboard(text@),
            Effect::RunCommand { command } => EffectView::RunCommand(command@),
        }
    }
}

pub open spec fn effects_view(effects: Seq<Effect>) -> Seq<EffectView> {
    effects.map_values(|e: Effect| e@)
}

pub open spec fn option_effects(effect: Option<Effect>) -> Seq<EffectView> {
    match effect {
        Some(e) => seq![e@],
        None => Seq::empty(),
    }
}

/// A compiled rule: its pattern, whether it is on, and what it does.
pub struct Rule {
    pub pattern: Pattern,
    pub enabled: bool,
    pub action: Action,
}

/// The text that matches are replaced with, for a rule that rewrites.
pub open spec fn replacement_of(action: Action, token: Seq<char>) -> Seq<char> {
    match action {
        Action::Scramble => token,
        Action::Replace { replacement } => replacement@,
        _ => Seq::empty(),
    }
}

/// Working value and effects after a matching rule with `action`, where
/// `rewritten` is the working value with its matches replaced.
pub open spec fn settle_spec(action: Action, working: Seq<char>, rewritten: Seq<char>) -> (
    Seq<char>,
    Seq<EffectView>,
) {
    match action {
        Action::Noop => (working, Seq::empty()),
        Action::Remove => (rewritten, Seq::empty()),
        Action::Scramble => (rewritten, seq![EffectView::WriteClipboard(rewritten)]),
        Action::Replace { .. } => (rewritten, seq![EffectView::WriteClipboard(rewritten)]),
        Action::Exec { command_pattern } => (
            working,
            seq![EffectView::RunCommand(fill_spec(command_pattern@, working))],
        ),
    }
}

/// One rule on the working value: a disabled rule, or one whose pattern
/// does not match, changes nothing.
pub open spec fn rule_step(rule: Rule, working: Seq<char>, token: Seq<char>) -> (
    Seq<char>,
    Seq<EffectView>,
) {
    if rule.enabled && regex_matches(rule.pattern@, working) {
        settle_spec(
            rule.action,
            working,
            regex_replaced(rule.pattern@, working, replacement_of(rule.action, token)),
        )
    } else {
        (working, Seq::empty())
    }
}

/// The rules in order, each on the output of the one before; `tokens[i]`
/// is the random text for rule `i`. Gives the final value and all effects
/// in order.
pub open spec fn run_rules(rules: Seq<Rule>, input: Seq<char>, tokens: Seq<Seq<char>>) -> (
    Seq<char>,
    Seq<EffectView>,
)
    decreases rules.len(),
{
    if rules.len() == 0 {
        (input, Seq::empty())
    } else {
        let prev = run_rules(rules.drop_last(), input, tokens);
        let step = rule_step(rules.last(), prev.0, tokens[rules.len() - 1]);
        (step.0, prev.1 + step.1)
    }
}

/// Whether `tokens` can serve the rules: one per rule, and each scrambling
/// rule's a random text of the fixed length.
pub open spec fn tokens_fit(rules: Seq<Rule>, tokens: Seq<Seq<char>>) -> bool {
    &&& tokens.len() == rules.len()
    &&& forall|i: int|
        0 <= i < rules.len() && (#[trigger] rules[i]).action is Scramble ==> tokens[i].len()
            == SCRAMBLE_LEN && forall|k: int|
            0 <= k < tokens[i].len() ==> is_ascii_alphanumeric(#[trigger] tokens[i][k])
}

pub open spec fn strings_view(v: Seq<String>) -> Seq<Seq<char>> {
    v.map_values(|s: String| s@)
}

/// What a matching rule with `action` leaves, given the working value and
/// the working value with its matches replaced.
pub fn settle(action: &Action, working: String, rewritten: String) -> (r: (String, Option<Effect>))
    ensures
        (r.0@, option_effects(r.1)) == settle_spec(*action, working@, rewritten@),
{
    match action {
        Action::Noop => (working, None),
        Action::Remove => (rewritten, None),
        Action::Scramble => {
            let text = rewritten.clone();
            (rewritten, Some(Effect::WriteClipboard { text }))
        },
        Action::Replace { .. } => {
            let text = rewritten.clone();
            (rewritten, Some(Effect::WriteClipboard { text }))
        },
        Action::Exec { command_pattern } => {
            let command = fill_command(command_pattern.as_str(), working.as_str());
            (working, Some(Effect::RunCommand { command }))
        },
    }
}

/// Applies one rule to the working value, with `token` as the random text
/// if it scrambles.
pub fn apply_rule(rule: &Rule, working: String, token: &String) -> (r: (String, Option<Effect>))
    ensures
        (r.0@, option_effects(r.1)) == rule_step(*rule, working@, token@),
{
    if !rule.enabled || !rule.pattern.is_match(working.as_str()) {
        return (working, None);
    }
    let rewritten = match &rule.action {
        Action::Remove => rule.pattern.replace_all(working.as_str(), ""),
        Action::Scramble => rule.pattern.replace_all(working.as_str(), token.as_str()),
        Action::Replace { replacement } => rule.pattern.replace_all(
            working.as_str(),
            replacement.as_str(),
        ),
        _ => String::new(),
    };
    proof {
        reveal_strlit("");
        assert(""@ =~= Seq::<char>::empty());
    }
    settle(&rule.action, working, rewritten)
}

/// The value a pass ends with and the effects it asks for, in order.
pub struct Transform {
    pub value: String,
    pub effects: Vec<Effect>,
}

impl Transform {
    pub open spec fn spec_outcome(&self) -> (Seq<char>, Seq<EffectView>) {
        (self.value@, effects_view(self.effects@))
    }
}

/// The rules of one watch session, in configured order.
pub struct RuleSet {
    rules: Vec<Rule>,
}

impl RuleSet {
    pub closed spec fn spec_rules(&self) -> Seq<Rule> {
        self.rules@
    }

    /// Compiles every pattern, in order, keeping each entry's flag and action.
    /// Fails on the first pattern that is no valid regular expression; then
    /// no rule set is made.
    pub fn compile(actions: Vec<(String, (bool, Action))>) -> (r: Result<RuleSet, ConfigError>)
        ensures
            r is Ok <==> forall|i: int|
                0 <= i < actions@.len() ==> crate::pattern::regex_valid(
                    #[trigger] actions@[i].0@,
                ),
            r is Ok ==> r->Ok_0.spec_rules().len() == actions@.len() && forall|i: int|
                0 <= i < actions@.len() ==> {
                    let rule = #[trigger] r->Ok_0.spec_rules()[i];
                    &&& rule.pattern@ == actions@[i].0@
                    &&& rule.enabled == actions@[i].1.0
                    &&& rule.action == actions@[i].1.1
                },
            r is Err ==> exists|i: int|
                0 <= i < actions@.len() && !crate::pattern::regex_valid(
                    #[trigger] actions@[i].0@,
                ) && (forall|j: int|
                    0 <= j < i ==> crate::pattern::regex_valid(actions@[j].0@))
                    && r->Err_0.pattern@ == actions@[i].0@,
    {
        let ghost all = actions@;
        let mut rest = actions;
        let mut rules: Vec<Rule> = Vec::new();
        let n = rest.len();
        let mut i: usize = 0;
        while i < n
            invariant
                n == all.len(),
                all == actions@,
                0 <= i <= n,
                rest@ == all.subrange(i as int, n as int),
                rules@.len() == i,
                forall|j: int| 0 <= j < i ==> crate::pattern::regex_valid(#[trigger] all[j].0@),
                forall|j: int|
                    0 <= j < i ==> {
                        let rule = #[trigger] rules@[j];
                        &&& rule.pattern@ == all[j].0@
                        &&& rule.enabled == all[j].1.0
                        &&& rule.action == all[j].1.1
                    },
            decreases n - i,
        {
            let (source, (enabled, action)) = rest.remove(0);
            assert(all[i as int] == (source, (enabled, action)));
            match Pattern::new(source) {
                Ok(pattern) => {
                    rules.push(Rule { pattern, enabled, action });
                },
                Err(e) => {
                    assert(!crate::pattern::regex_valid(all[i as int].0@));
                    return Err(e);
                },
            }
            i = i + 1;
            assert(rest@ =~= all.subrange(i as int, n as int));
        }
        Ok(RuleSet { rules })
    }

    /// Runs every rule in order on `input`, each on the output of the one
    /// before, with `tokens[i]` as the random text of rule `i`.
    pub fn apply_with_tokens(&self, input: String, tokens: &Vec<String>) -> (r: Transform)
        requires
            tokens@.len() == self.spec_rules().len(),
        ensures
            r.spec_outcome() == run_rules(self.spec_rules(), input@, strings_view(tokens@)),
    {
        let ghost tv = strings_view(tokens@);
        let mut working = input;
        let mut effects: Vec<Effect> = Vec::new();
        let n = self.rules.len();
        let mut i: usize = 0;
        while i < n
            invariant
                n == self.rules@.len(),
                tokens@.len() == n,
                tv == strings_view(tokens@),
                0 <= i <= n,
                (working@, effects_view(effects@)) == run_rules(
                    self.rules@.subrange(0, i as int),
                    input@,
                    tv,
                ),
            decreases n - i,
        {
            let ghost before = effects@;
            let ghost prefix = self.rules@.subrange(0, i as int + 1);
            assert(prefix.drop_last() =~= self.rules@.subrange(0, i as int));
            let (next, effect) = apply_rule(&self.rules[i], working, &tokens[i]);
            working = next;
            match effect {
                Some(e) => {
                    effects.push(e);
                },
                None => {},
            }
            assert(effects_view(effects@) =~= effects_view(before) + option_effects(effect));
            i = i + 1;
        }
        assert(self.rules@.subrange(0, n as int) =~= self.rules@);
        Transform { value: working, effects }
    }

    /// Runs every rule in order on `input`, drawing a fresh random text for
    /// each scrambling rule.
    pub fn apply(&self, input: String) -> (r: Transform)
        ensures
            exists|tokens: Seq<Seq<char>>|
                tokens_fit(self.spec_rules(), tokens) && r.spec_outcome() == run_rules(
                    self.spec_rules(),
                    input@,
                    tokens,
                ),
    {
        let tokens = self.draw_tokens();
        self.apply_with_tokens(input, &tokens)
    }

    /// One random text for each scrambling rule, an empty one for the others.
    fn draw_tokens(&self) -> (r: Vec<String>)
        ensures
            tokens_fit(self.spec_rules(), strings_view(r@)),
    {
        let n = self.rules.len();
        let mut tokens: Vec<String> = Vec::new();
        let mut i: usize = 0;
        while i < n
            invariant
                n == self.rules@.len(),
                0 <= i <= n,
                tokens@.len() == i,
                forall|j: int|
                    0 <= j < i && (#[trigger] self.rules@[j]).action is Scramble ==> tokens@[j]@.len()
                        == SCRAMBLE_LEN && forall|k: int|
                        0 <= k < tokens@[j]@.len() ==> is_ascii_alphanumeric(
                            #[trigger] tokens@[j]@[k],
                        ),
            decreases n - i,
        {
            let token = match &self.rules[i].action {
                Action::Scramble => scramble_token(),
                _ => String::new(),
            };
            tokens.push(token);
            i = i + 1;
        }
        tokens
    }
}

} // verus!
