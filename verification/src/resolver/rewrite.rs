//! The rewrite stage: an ordered list of regular-expression rules patches
//! the requested name before resolution continues.
//!
//! Matching and substitution belong to the regex crate; what a pattern
//! matches and what a substitution produces are taken as functions of the
//! pattern, the replacement and the text, and named as such.

use vstd::prelude::*;

verus! {

/// Whether the regex crate accepts `pattern`; a function of the pattern
/// alone, pinned down only through the trusted calls below.
pub uninterp spec fn regex_valid(pattern: Seq<char>) -> bool;

/// What replacing the first match of `pattern` in `text` with `replacer`
/// (capture groups expanded) produces: the rewritten text when the pattern
/// matches, nothing when it does not. A function of its three arguments,
/// pinned down only through the trusted call below.
pub uninterp spec fn regex_rewrite(pattern: Seq<char>, replacer: Seq<u8>, text: Seq<u8>) -> Option<
    Seq<u8>,
>;

/// Relies on regex's `bytes::Regex::new`: whether a pattern compiles
/// depends on the pattern alone.
#[verifier::external_body]
pub(crate) fn regex_check(pattern: &str) -> (r: bool)
    ensures
        r == regex_valid(pattern@),
{
    regex::bytes::Regex::new(pattern).is_ok()
}

/// Relies on regex's `bytes::Regex`: `is_match` and `replace` are
/// deterministic in the pattern, the replacement and the text; `replace`
/// substitutes the first match, expanding `$`-references to capture groups.
#[verifier::external_body]
fn regex_apply(pattern: &str, replacer: &[u8], text: &[u8]) -> (r: Option<Vec<u8>>)
    ensures
        regex_valid(pattern@) ==> r.deep_view() == regex_rewrite(pattern@, replacer@, text@),
        !regex_valid(pattern@) ==> r is None,
{
    let re = match regex::bytes::Regex::new(pattern) {
        Ok(re) => re,
        Err(_) => return None,
    };
    if re.is_match(text) {
        Some(re.replace(text, replacer).into_owned())
    } else {
        None
    }
}

/// One rewrite rule from configuration: a pattern and its replacement.
#[derive(Debug, Clone, PartialEq, Eq)]
pub struct Config {
    pub matcher: String,
    pub replacer: Vec<u8>,
}

/// What one rule makes of `text`: the substitution when the rule's pattern
/// is valid and matches, nothing otherwise.
pub open spec fn rule_applied(rule: Config, text: Seq<u8>) -> Option<Seq<u8>> {
    if regex_valid(rule.matcher@) {
        regex_rewrite(rule.matcher@, rule.replacer@, text)
    } else {
        None
    }
}

/// What the ordered rule list makes of `text`: the replacement of the first
/// rule that matches; rules after the first match are ignored, and `text`
/// stays as it is when no rule matches.
pub open spec fn rewritten(rules: Seq<Config>, text: Seq<u8>) -> Seq<u8>
    decreases rules.len(),
{
    if rules.len() == 0 {
        text
    } else {
        match rule_applied(rules.first(), text) {
            Some(v) => v,
            None => rewritten(rules.drop_first(), text),
        }
    }
}

impl Config {
    /// Applies this one rule to `input`.
    pub fn apply(&self, input: &[u8]) -> (r: Option<Vec<u8>>)
        ensures
            r.deep_view() == rule_applied(*self, input@),
    {
        if regex_check(self.matcher.as_str()) {
            regex_apply(self.matcher.as_str(), self.replacer.as_slice(), input)
        } else {
            None
        }
    }
}

/// Why a rewrite layer cannot be built.
#[derive(Debug, PartialEq, Eq, Structural)]
pub enum Error {
    /// Some rule's pattern is not a regular expression.
    InvalidRegex,
}

/// The rewrite stage: the configured rules, applied in order.
pub struct Layer {
    rules: Vec<Config>,
}

impl Layer {
    /// The rules this stage applies.
    pub closed spec fn rules_spec(&self) -> Seq<Config> {
        self.rules@
    }

    /// Whether every rule's pattern is a regular expression.
    pub open spec fn wf(&self) -> bool {
        forall|i: int|
            0 <= i < self.rules_spec().len() ==> regex_valid(
                #[trigger] self.rules_spec()[i].matcher@,
            )
    }

    /// Keeps the rules in order, refusing any whose pattern does not
    /// compile.
    pub fn new(rules: Vec<Config>) -> (r: Result<Layer, Error>)
        ensures
            r matches Ok(l) ==> l.rules_spec() == rules@ && l.wf(),
            r is Err <==> exists|i: int|
                0 <= i < rules@.len() && !regex_valid(#[trigger] rules@[i].matcher@),
    {
        let n = rules.len();
        for i in 0..n
            invariant
                n == rules@.len(),
                forall|k: int| 0 <= k < i ==> regex_valid(#[trigger] rules@[k].matcher@),
        {
            if !regex_check(rules[i].matcher.as_str()) {
                return Err(Error::InvalidRegex);
            }
        }
        Ok(Layer { rules })
    }

    /// Applies the first matching rule, leaving the name unchanged when
    /// none matches.
    pub fn apply_all(&self, input: &[u8]) -> (r: Vec<u8>)
        ensures
            r@ == rewritten(self.rules_spec(), input@),
    {
        let n = self.rules.len();
        proof {
            assert(self.rules@.skip(0) =~= self.rules@);
        }
        for i in 0..n
            invariant
                n == self.rules@.len(),
                rewritten(self.rules@, input@) == rewritten(self.rules@.skip(i as int), input@),
        {
            proof {
                assert(self.rules@.skip(i as int).first() == self.rules@[i as int]);
                assert(self.rules@.skip(i as int).drop_first() =~= self.rules@.skip(i + 1));
            }
            match self.rules[i].apply(input) {
                Some(v) => {
                    return v;
                },
                None => {
                },
            }
        }
        crate::text::to_vec_copy(input)
    }
}

/// Rewrite precedence: the replacement applied is that of the first rule
/// whose pattern matches; whatever later rules would say is ignored.
pub proof fn lemma_rewrite_first_match_wins(rules: Seq<Config>, text: Seq<u8>, i: int)
    requires
        0 <= i < rules.len(),
        rule_applied(rules[i], text) is Some,
        forall|j: int| 0 <= j < i ==> rule_applied(#[trigger] rules[j], text) is None,
    ensures
        rewritten(rules, text) == rule_applied(rules[i], text)->Some_0,
    decreases i,
{
    if i == 0 {
    } else {
        assert(rule_applied(rules[0], text) is None);
        lemma_rewrite_first_match_wins(rules.drop_first(), text, i - 1);
        assert(rules.drop_first()[i - 1] == rules[i]);
        assert(forall|j: int|
            0 <= j < i - 1 ==> #[trigger] rules.drop_first()[j] == rules[j + 1]);
    }
}

} // verus!
