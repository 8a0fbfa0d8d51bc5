use vstd::prelude::*;
use crate::rules::{run_rules, strings_view, tokens_fit, EffectView, SCRAMBLE_LEN, Rule, RuleSet, Transform};

verus! {

/// `s` without the leading and trailing NUL characters.
pub open spec fn strip_nul(s: Seq<char>) -> Seq<char>
    decreases s.len(),
{
    if s.len() > 0 && s[0] == '\0' {
        strip_nul(s.drop_first())
    } else if s.len() > 0 && s.last() == '\0' {
        strip_nul(s.drop_last())
    } else {
        s
    }
}

/// `s` without leading and trailing white space, as `str::trim` gives it.
pub uninterp spec fn trimmed(s: Seq<char>) -> Seq<char>;

/// Relies on str::trim_matches with a char: every leading and trailing
/// occurrence of NUL is dropped.
#[verifier::external_body]
fn trim_nul(s: &str) -> (r: &str)
    ensures
        r@ == strip_nul(s@),
{
    s.trim_matches('\0')
}

/// Relies on str::trim: the result depends on the characters alone.
#[verifier::external_body]
fn trim_whitespace(s: &str) -> (r: &str)
    ensures
        r@ == trimmed(s@),
{
    s.trim()
}

/// The text of a clipboard read as the processor takes it: NUL padding
/// dropped from both ends, then surrounding white space.
pub fn clean_read(raw: &str) -> (r: String)
    ensures
        r@ == trimmed(strip_nul(raw@)),
{
    trim_whitespace(trim_nul(raw)).to_owned()
}

/// Whether a clipboard read starts a cycle: it is non-empty and differs
/// from the value last accepted.
pub open spec fn is_new_value(last: Seq<char>, read: Seq<char>) -> bool {
    read.len() > 0 && read != last
}

/// One watch cycle on a read: the next last-seen value, and the committed
/// value with its effects when the read starts a cycle.
pub open spec fn watch_step(
    last: Seq<char>,
    read: Seq<char>,
    rules: Seq<Rule>,
    tokens: Seq<Seq<char>>,
) -> (Seq<char>, Option<(Seq<char>, Seq<EffectView>)>) {
    if is_new_value(last, read) {
        let t = run_rules(rules, read, tokens);
        (t.0, Some(t))
    } else {
        (last, None)
    }
}

pub open spec fn transform_view(r: Option<Transform>) -> Option<(Seq<char>, Seq<EffectView>)> {
    match r {
        Some(t) => Some(t.spec_outcome()),
        None => None,
    }
}

/// The change processor's memory: the value it last committed.
pub struct WatchState {
    last: String,
}

impl WatchState {
    pub closed spec fn last_seen(&self) -> Seq<char> {
        self.last@
    }

    /// A state that has seen nothing yet.
    pub fn new() -> (r: WatchState)
        ensures
            r.last_seen() == Seq::<char>::empty(),
    {
        WatchState { last: String::new() }
    }

    /// The value last committed.
    pub fn last_value(&self) -> (r: &str)
        ensures
            r@ == self.last_seen(),
    {
        self.last.as_str()
    }

    /// One cycle on a clipboard read, with `tokens[i]` as the random text of
    /// rule `i`: an empty or unchanged read gives `None` and changes nothing;
    /// any other read runs the rules and is committed as the last-seen value.
    pub fn process_with_tokens(&mut self, rules: &RuleSet, read: String, tokens: &Vec<String>) -> (r:
        Option<Transform>)
        requires
            tokens@.len() == rules.spec_rules().len(),
        ensures
            (final(self).last_seen(), transform_view(r)) == watch_step(
                old(self).last_seen(),
                read@,
                rules.spec_rules(),
                strings_view(tokens@),
            ),
    {
        if read.as_str().is_empty() || read == self.last {
            return None;
        }
        let t = rules.apply_with_tokens(read, tokens);
        self.last = t.value.clone();
        Some(t)
    }

    /// One cycle on a clipboard read, drawing a fresh random text for each
    /// scrambling rule.
    pub fn process(&mut self, rules: &RuleSet, read: String) -> (r: Option<Transform>)
        ensures
            exists|tokens: Seq<Seq<char>>|
                tokens_fit(rules.spec_rules(), tokens) && (final(self).last_seen(), transform_view(r))
                    == watch_step(old(self).last_seen(), read@, rules.spec_rules(), tokens),
    {
        if read.as_str().is_empty() || read == self.last {
            proof {
                let filler = Seq::new(SCRAMBLE_LEN as nat, |k: int| 'a');
                let tokens = Seq::new(rules.spec_rules().len(), |i: int| filler);
                assert(tokens_fit(rules.spec_rules(), tokens));
            }
            return None;
        }
        let t = rules.apply(read);
        self.last = t.value.clone();
        Some(t)
    }
}

/// Once a cycle has committed its value, reading that value again, or an
/// empty value, starts no cycle and leaves the state as it is: the
/// processor does not take its own write-back for a new change.
pub proof fn lemma_committed_value_not_reprocessed(
    last: Seq<char>,
    read: Seq<char>,
    again: Seq<char>,
    rules: Seq<Rule>,
    tokens: Seq<Seq<char>>,
    tokens_again: Seq<Seq<char>>,
)
    requires
        again == watch_step(last, read, rules, tokens).0 || again.len() == 0,
    ensures
        ({
            let first = watch_step(last, read, rules, tokens);
            let second = watch_step(first.0, again, rules, tokens_again);
            second.1 is None && second.0 == first.0
        }),
{
}

} // verus!
