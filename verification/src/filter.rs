//! The filter engine: parses a filter specification into an ordered sequence
//! of match and negation rules, and evaluates a label against those rules.
//!
//! A specification is split into tokens on spaces when it holds a space, else
//! on commas when it holds a comma, else taken as one token; empty tokens are
//! discarded after trimming. A token starting with `-` is a negation rule. A
//! pattern ending in `*` matches every label that starts with its stem; the
//! bare token `*` matches every label; any other pattern matches only the
//! exactly equal label. A label is suppressed when any negation rule matches
//! it, whatever the other rules say; it is admitted when some positive rule
//! matches it; with no rules, or none that match, it is suppressed.

use crate::text::contains_char;
use crate::text::is_space;
use crate::text::lemma_contains_iff;
use crate::text::lemma_split_at_first;
use crate::text::lemma_split_no_delim;
use crate::text::split_on;
use crate::text::split_str;
use crate::text::str_contains_char;
use crate::text::str_has_prefix;
use crate::text::str_trim;
use crate::text::string_views;
use crate::text::trim;
use crate::text::trim_end;
use crate::text::trim_start;
use vstd::prelude::*;

verus! {

/// One rule of a filter specification: a pattern, possibly marked as a
/// negation by a leading `-` in its token (the marker itself is stripped).
pub struct FilterRule {
    pub is_negation: bool,
    pub pattern: String,
}

/// The mathematical model of a rule: its negation flag and its pattern.
pub open spec fn rule_model(r: FilterRule) -> (bool, Seq<char>) {
    (r.is_negation, r.pattern@)
}

/// The models of a sequence of rules.
pub open spec fn rule_models(rules: Seq<FilterRule>) -> Seq<(bool, Seq<char>)> {
    rules.map_values(|r: FilterRule| rule_model(r))
}

/// Whether a pattern ends in the wildcard marker.
pub open spec fn rule_wild(pat: Seq<char>) -> bool {
    pat.len() > 0 && pat[pat.len() - 1] == '*'
}

/// The pattern without its trailing wildcard marker.
pub open spec fn wild_stem(pat: Seq<char>) -> Seq<char> {
    pat.take(pat.len() - 1)
}

/// Whether a negation rule suppresses the label: exact equality for a plain
/// pattern, a prefix of the label for a wildcarded one.
pub open spec fn rule_excludes(rule: (bool, Seq<char>), label: Seq<char>) -> bool {
    rule.0 && if rule_wild(rule.1) {
        wild_stem(rule.1).is_prefix_of(label)
    } else {
        rule.1 == label
    }
}

/// Whether a positive rule admits the label: exact equality, the match-all
/// token, or a wildcarded prefix of the label.
pub open spec fn rule_admits(rule: (bool, Seq<char>), label: Seq<char>) -> bool {
    !rule.0 && (rule.1 == label || rule.1 == seq!['*'] || (rule_wild(rule.1) && wild_stem(
        rule.1,
    ).is_prefix_of(label)))
}

/// Whether the rules admit the label: no negation rule suppresses it, and
/// some positive rule admits it. With no rules at all, every label is
/// suppressed.
pub open spec fn spec_matches(rules: Seq<(bool, Seq<char>)>, label: Seq<char>) -> bool {
    &&& forall|i: int| 0 <= i < rules.len() ==> !rule_excludes(rules[i], label)
    &&& exists|i: int| 0 <= i < rules.len() && rule_admits(rules[i], label)
}

/// The tokens of a specification: split on spaces when one is present, else
/// on commas when one is present, else the whole string.
pub open spec fn tokenize(s: Seq<char>) -> Seq<Seq<char>> {
    if contains_char(s, ' ') {
        split_on(s, ' ')
    } else if contains_char(s, ',') {
        split_on(s, ',')
    } else {
        seq![s]
    }
}

/// The tokens trimmed, with empty ones discarded, in order.
pub open spec fn clean_tokens(toks: Seq<Seq<char>>) -> Seq<Seq<char>>
    decreases toks.len(),
{
    if toks.len() == 0 {
        Seq::empty()
    } else {
        let rest = clean_tokens(toks.skip(1));
        if trim(toks[0]).len() > 0 {
            seq![trim(toks[0])] + rest
        } else {
            rest
        }
    }
}

/// The rule a token stands for: a leading `-` marks a negation and is
/// stripped; the rest is the pattern.
pub open spec fn rule_of(tok: Seq<char>) -> (bool, Seq<char>) {
    if tok.len() > 0 && tok[0] == '-' {
        (true, tok.skip(1))
    } else {
        (false, tok)
    }
}

/// The ordered rules of a filter specification.
pub open spec fn spec_parse(s: Seq<char>) -> Seq<(bool, Seq<char>)> {
    clean_tokens(tokenize(s)).map_values(|t: Seq<char>| rule_of(t))
}

/// Turns one trimmed, non-empty token into its rule.
fn rule_from_token(tok: &str) -> (r: FilterRule)
    requires
        tok@.len() > 0,
    ensures
        rule_model(r) == rule_of(tok@),
{
    let n = tok.unicode_len();
    if tok.get_char(0) == '-' {
        let rest = tok.substring_char(1, n);
        proof {
            assert(rest@ =~= tok@.skip(1));
        }
        FilterRule { is_negation: true, pattern: String::from_str(rest) }
    } else {
        FilterRule { is_negation: false, pattern: String::from_str(tok) }
    }
}

/// Trims the tokens from position `i` on, discards the empty ones, and turns
/// the rest into rules, in order.
fn rules_from(toks: &Vec<String>, i: usize) -> (rules: Vec<FilterRule>)
    requires
        i <= toks@.len(),
    ensures
        rule_models(rules@) == clean_tokens(string_views(toks@).skip(i as int)).map_values(
            |t: Seq<char>| rule_of(t),
        ),
    decreases toks@.len() - i,
{
    let ghost vs = string_views(toks@);
    if i == toks.len() {
        let rules: Vec<FilterRule> = Vec::new();
        proof {
            assert(vs.skip(i as int) =~= Seq::<Seq<char>>::empty());
            assert(rule_models(rules@) =~= clean_tokens(vs.skip(i as int)).map_values(
                |t: Seq<char>| rule_of(t),
            ));
        }
        rules
    } else {
        let mut rest = rules_from(toks, i + 1);
        let t = str_trim(toks[i].as_str());
        proof {
            assert(vs.skip(i as int)[0] == toks@[i as int]@);
            assert(vs.skip(i as int).skip(1) =~= vs.skip(i + 1));
        }
        if t.unicode_len() > 0 {
            let rule = rule_from_token(t);
            let ghost rule0 = rule;
            let ghost rest0 = rest@;
            let mut rules: Vec<FilterRule> = Vec::new();
            rules.push(rule);
            rules.append(&mut rest);
            proof {
                let head = trim(toks@[i as int]@);
                let cleaned = clean_tokens(vs.skip(i as int));
                assert(cleaned =~= seq![head] + clean_tokens(vs.skip(i + 1)));
                assert(rules@ =~= seq![rule0] + rest0);
                let lhs = rule_models(rules@);
                let rhs = cleaned.map_values(|t: Seq<char>| rule_of(t));
                assert(rule_models(rest0) == clean_tokens(vs.skip(i + 1)).map_values(
                    |t: Seq<char>| rule_of(t),
                ));
                assert(rule_models(rest0).len() == rest0.len());
                assert(clean_tokens(vs.skip(i + 1)).map_values(|t: Seq<char>| rule_of(t)).len()
                    == clean_tokens(vs.skip(i + 1)).len());
                assert(rest0.len() == clean_tokens(vs.skip(i + 1)).len());
                assert(lhs.len() == rhs.len());
                assert forall|j: int| 0 <= j < lhs.len() implies lhs[j] == rhs[j] by {
                    if j == 0 {
                        assert(rules@[0] == rule0);
                        assert(cleaned[0] == head);
                    } else {
                        assert(rules@[j] == rest0[j - 1]);
                        assert(cleaned[j] == clean_tokens(vs.skip(i + 1))[j - 1]);
                        assert(rule_models(rest0)[j - 1] == rule_model(rest0[j - 1]));
                        assert(clean_tokens(vs.skip(i + 1)).map_values(|t: Seq<char>| rule_of(t))[j
                            - 1] == rule_of(clean_tokens(vs.skip(i + 1))[j - 1]));
                    }
                }
                assert(lhs =~= rhs);
            }
            rules
        } else {
            proof {
                assert(clean_tokens(vs.skip(i as int)) =~= clean_tokens(vs.skip(i + 1)));
            }
            rest
        }
    }
}

/// Parses a filter specification into its ordered rules. An absent
/// specification is passed as the empty string and yields no rules.
pub fn parse_filter(spec_str: &str) -> (rules: Vec<FilterRule>)
    ensures
        rule_models(rules@) == spec_parse(spec_str@),
{
    let toks: Vec<String> = if str_contains_char(spec_str, ' ') {
        split_str(spec_str, ' ')
    } else if str_contains_char(spec_str, ',') {
        split_str(spec_str, ',')
    } else {
        let mut v: Vec<String> = Vec::new();
        v.push(String::from_str(spec_str));
        proof {
            assert(string_views(v@) =~= seq![spec_str@]);
        }
        v
    };
    proof {
        assert(string_views(toks@) == tokenize(spec_str@));
    }
    let rules = rules_from(&toks, 0);
    proof {
        assert(string_views(toks@).skip(0) =~= string_views(toks@));
    }
    rules
}

/// Whether a negation rule suppresses the label.
fn rule_excludes_exec(rule: &FilterRule, label: &str) -> (b: bool)
    ensures
        b == rule_excludes(rule_model(*rule), label@),
{
    if !rule.is_negation {
        return false;
    }
    let pat = rule.pattern.as_str();
    let n = pat.unicode_len();
    if n > 0 && pat.get_char(n - 1) == '*' {
        let stem = pat.substring_char(0, n - 1);
        proof {
            assert(stem@ =~= wild_stem(pat@));
        }
        str_has_prefix(label, stem)
    } else {
        let label_string = String::from_str(label);
        rule.pattern == label_string
    }
}

/// Whether a positive rule admits the label.
fn rule_admits_exec(rule: &FilterRule, label: &str) -> (b: bool)
    ensures
        b == rule_admits(rule_model(*rule), label@),
{
    if rule.is_negation {
        return false;
    }
    let pat = rule.pattern.as_str();
    let n = pat.unicode_len();
    let label_string = String::from_str(label);
    if rule.pattern == label_string {
        return true;
    }
    if n == 1 && pat.get_char(0) == '*' {
        proof {
            assert(pat@ =~= seq!['*']);
        }
        return true;
    }
    if n > 0 && pat.get_char(n - 1) == '*' {
        let stem = pat.substring_char(0, n - 1);
        proof {
            assert(stem@ =~= wild_stem(pat@));
        }
        str_has_prefix(label, stem)
    } else {
        proof {
            if rule_admits(rule_model(*rule), label@) {
                assert(pat@ == seq!['*'] ==> pat@.len() == 1 && pat@[0] == '*');
            }
        }
        false
    }
}

/// Evaluates a label against the rules: negation rules are scanned first and
/// any match suppresses the label; otherwise the positive rules are scanned
/// and any match admits it; with no match the label is suppressed.
pub fn matches(rules: &Vec<FilterRule>, label: &str) -> (b: bool)
    ensures
        b == spec_matches(rule_models(rules@), label@),
{
    let ghost rm = rule_models(rules@);
    let n = rules.len();
    let mut i: usize = 0;
    while i < n
        invariant
            0 <= i <= n,
            n == rules@.len(),
            rm == rule_models(rules@),
            forall|j: int| 0 <= j < i ==> !rule_excludes(rm[j], label@),
        decreases n - i,
    {
        if rule_excludes_exec(&rules[i], label) {
            proof {
                assert(rule_excludes(rm[i as int], label@));
            }
            return false;
        }
        i = i + 1;
    }
    let mut k: usize = 0;
    while k < n
        invariant
            0 <= k <= n,
            n == rules@.len(),
            rm == rule_models(rules@),
            forall|j: int| 0 <= j < n ==> !rule_excludes(rm[j], label@),
            forall|j: int| 0 <= j < k ==> !rule_admits(rm[j], label@),
        decreases n - k,
    {
        if rule_admits_exec(&rules[k], label) {
            proof {
                assert(rule_admits(rm[k as int], label@));
            }
            return true;
        }
        k = k + 1;
    }
    false
}

/// Negation precedence: one negation rule that matches a label suppresses
/// it, whatever the other rules say.
pub proof fn lemma_negation_wins(rules: Seq<(bool, Seq<char>)>, label: Seq<char>, i: int)
    requires
        0 <= i < rules.len(),
        rule_excludes(rules[i], label),
    ensures
        !spec_matches(rules, label),
{
}

/// Exact-match strictness: a positive rule whose pattern has no wildcard
/// marker admits exactly the one label equal to its pattern.
pub proof fn lemma_exact_match_strict(pat: Seq<char>, label: Seq<char>)
    requires
        !rule_wild(pat),
    ensures
        rule_admits((false, pat), label) <==> pat == label,
{
    if pat == seq!['*'] {
        assert(pat.len() == 1 && pat[0] == '*');
        assert(rule_wild(pat));
    }
}

/// Wildcard prefix: a positive rule whose pattern ends in the wildcard
/// marker admits exactly the labels that start with its stem.
pub proof fn lemma_wildcard_admits(pat: Seq<char>, label: Seq<char>)
    requires
        rule_wild(pat),
    ensures
        rule_admits((false, pat), label) <==> wild_stem(pat).is_prefix_of(label),
{
    if rule_admits((false, pat), label) {
        if pat == label {
            assert(wild_stem(pat) =~= label.subrange(0, wild_stem(pat).len() as int));
        }
        if pat == seq!['*'] {
            assert(wild_stem(pat) =~= label.subrange(0, 0));
        }
    }
}

/// The empty specification parses to no rules at all.
pub proof fn lemma_parse_empty()
    ensures
        spec_parse(""@) == Seq::<(bool, Seq<char>)>::empty(),
{
    reveal_strlit("");
    let s = ""@;
    assert(s.len() == 0);
    lemma_contains_iff(s, ' ');
    lemma_contains_iff(s, ',');
    assert(tokenize(s) == seq![s]);
    assert(trim(s).len() == 0);
    assert(seq![s].skip(1) =~= Seq::<Seq<char>>::empty());
    assert(clean_tokens(Seq::<Seq<char>>::empty()) =~= Seq::<Seq<char>>::empty());
    assert(clean_tokens(seq![s]) =~= Seq::<Seq<char>>::empty());
    assert(spec_parse(s) =~= Seq::<(bool, Seq<char>)>::empty());
}

/// Default deny: with the filter specification unset or empty, no label is
/// ever admitted.
pub proof fn lemma_default_deny(label: Seq<char>)
    ensures
        !spec_matches(spec_parse(""@), label),
{
    lemma_parse_empty();
    assert(spec_parse(""@).len() == 0);
}

/// The match-all specification parses to the single match-all rule.
pub proof fn lemma_parse_match_all()
    ensures
        spec_parse("*"@) == seq![(false, seq!['*'])],
{
    reveal_strlit("*");
    let s = "*"@;
    assert(s.len() == 1 && s[0] == '*');
    assert(!contains_char(s, ' ')) by {
        lemma_contains_iff(s, ' ');
        if contains_char(s, ' ') {
            let j = choose|j: int| 0 <= j < s.len() && s[j] == ' ';
            assert(j == 0);
            assert(false);
        }
    }
    assert(!contains_char(s, ',')) by {
        lemma_contains_iff(s, ',');
        if contains_char(s, ',') {
            let j = choose|j: int| 0 <= j < s.len() && s[j] == ',';
            assert(j == 0);
            assert(false);
        }
    }
    assert(tokenize(s) == seq![s]);
    assert(!is_space('*'));
    assert(trim_start(s) == s);
    assert(trim_end(s) == s);
    assert(trim(s) == s);
    assert(seq![s].skip(1) =~= Seq::<Seq<char>>::empty());
    assert(clean_tokens(Seq::<Seq<char>>::empty()) =~= Seq::<Seq<char>>::empty());
    assert(clean_tokens(seq![s]) =~= seq![s]);
    assert(rule_of(s) == (false, s));
    assert(s =~= seq!['*']);
    assert(spec_parse(s) =~= seq![(false, seq!['*'])]);
}

/// Match-all: under the specification `*`, every label is admitted.
pub proof fn lemma_match_all(label: Seq<char>)
    ensures
        spec_matches(spec_parse("*"@), label),
{
    lemma_parse_match_all();
    let rules = spec_parse("*"@);
    assert(rules[0] == (false, seq!['*']));
    assert(rule_admits(rules[0], label));
    assert(forall|i: int| 0 <= i < rules.len() ==> !rule_excludes(rules[i], label));
}

/// The specification `*,-secret` parses to the match-all rule followed by a
/// negation of the exact label `secret`.
pub proof fn lemma_parse_match_all_except()
    ensures
        spec_parse("*,-secret"@) == seq![(false, seq!['*']), (true, "secret"@)],
{
    reveal_strlit("*,-secret");
    reveal_strlit("-secret");
    reveal_strlit("secret");
    let s = "*,-secret"@;
    assert(s.len() == 9);
    assert(s[0] == '*' && s[1] == ',' && s[2] == '-' && s[3] == 's' && s[4] == 'e' && s[5] == 'c'
        && s[6] == 'r' && s[7] == 'e' && s[8] == 't');
    assert(!contains_char(s, ' ')) by {
        lemma_contains_iff(s, ' ');
        if contains_char(s, ' ') {
            let j = choose|j: int| 0 <= j < s.len() && s[j] == ' ';
            assert(j == 0 || j == 1 || j == 2 || j == 3 || j == 4 || j == 5 || j == 6 || j == 7
                || j == 8);
            assert(false);
        }
    }
    assert(contains_char(s, ',')) by {
        lemma_contains_iff(s, ',');
        assert(s[1] == ',');
    }
    assert(tokenize(s) == split_on(s, ','));
    assert(forall|j: int| 0 <= j < 1 ==> s[j] != ',');
    lemma_split_at_first(s, ',', 1);
    let neg = "-secret"@;
    assert(neg.len() == 7);
    assert(neg[0] == '-' && neg[1] == 's' && neg[2] == 'e' && neg[3] == 'c' && neg[4] == 'r'
        && neg[5] == 'e' && neg[6] == 't');
    assert(s.skip(2) =~= neg) by {
        assert forall|k: int| 0 <= k < 7 implies s.skip(2)[k] == neg[k] by {
            assert(k == 0 || k == 1 || k == 2 || k == 3 || k == 4 || k == 5 || k == 6);
        }
    }
    assert(forall|j: int| 0 <= j < neg.len() ==> neg[j] != ',') by {
        assert forall|j: int| 0 <= j < neg.len() implies neg[j] != ',' by {
            assert(j == 0 || j == 1 || j == 2 || j == 3 || j == 4 || j == 5 || j == 6);
        }
    }
    lemma_split_no_delim(neg, ',');
    let star = seq!['*'];
    assert(s.take(1) =~= star);
    assert(split_on(s, ',') =~= seq![star, neg]);
    assert(!is_space('*') && !is_space('-') && !is_space('t'));
    assert(trim_start(star) == star);
    assert(trim_end(star) == star);
    assert(trim(star) == star);
    assert(trim_start(neg) == neg);
    assert(trim_end(neg) == neg);
    assert(trim(neg) == neg);
    let toks = seq![star, neg];
    assert(toks.skip(1) =~= seq![neg]);
    assert(seq![neg].skip(1) =~= Seq::<Seq<char>>::empty());
    assert(clean_tokens(Seq::<Seq<char>>::empty()) =~= Seq::<Seq<char>>::empty());
    assert(clean_tokens(seq![neg]) =~= seq![neg]);
    assert(clean_tokens(toks) =~= toks);
    assert(rule_of(star) == (false, star));
    assert(rule_of(neg) == (true, neg.skip(1)));
    let sec = "secret"@;
    assert(sec.len() == 6);
    assert(sec[0] == 's' && sec[1] == 'e' && sec[2] == 'c' && sec[3] == 'r' && sec[4] == 'e'
        && sec[5] == 't');
    assert(neg.skip(1) =~= sec) by {
        assert forall|k: int| 0 <= k < 6 implies neg.skip(1)[k] == sec[k] by {
            assert(k == 0 || k == 1 || k == 2 || k == 3 || k == 4 || k == 5);
        }
    }
    assert(spec_parse(s) =~= seq![(false, star), (true, sec)]);
}

/// Match-all with a negation: under the specification `*,-secret`, a label
/// is admitted exactly when it is not the negated label.
pub proof fn lemma_match_all_except(label: Seq<char>)
    ensures
        spec_matches(spec_parse("*,-secret"@), label) <==> label != "secret"@,
{
    lemma_parse_match_all_except();
    reveal_strlit("secret");
    let sec = "secret"@;
    let rules = spec_parse("*,-secret"@);
    assert(rules.len() == 2);
    assert(rules[0] == (false, seq!['*']));
    assert(rules[1] == (true, sec));
    assert(!rule_wild(sec)) by {
        assert(sec.len() == 6 && sec[5] == 't');
    }
    assert(rule_admits(rules[0], label));
    if label == sec {
        assert(rule_excludes(rules[1], label));
        lemma_negation_wins(rules, label, 1);
    } else {
        assert forall|i: int| 0 <= i < rules.len() implies !rule_excludes(rules[i], label) by {
            assert(i == 0 || i == 1);
        }
    }
}

} // verus!
