//! Which application rule a window meets.
use regex::Regex;
use vstd::prelude::*;
use crate::common::config::AppWorkspaceRule;
use crate::common::text::{contains_text, same_text};

verus! {

/// What is known of a window when the rules are consulted.
#[derive(Clone, Copy)]
pub struct WindowIdentity<'a> {
    pub app_bundle_id: Option<&'a str>,
    pub app_name: Option<&'a str>,
    pub window_title: Option<&'a str>,
    pub ax_role: Option<&'a str>,
    pub ax_subrole: Option<&'a str>,
}

/// Whether a regular expression finds a match in a text; nothing when it is not one.
pub uninterp spec fn regex_verdict(pattern: Seq<char>, text: Seq<char>) -> Option<bool>;

/// `Regex::new` of the regex crate, and `Regex::is_match` on what it compiled: whether the
/// pattern matches anywhere in the text, or nothing when the pattern does not compile. The
/// outcome is that of the pattern and the text alone.
#[verifier::external_body]
pub(crate) fn match_regex(pattern: &str, text: &str) -> (r: Option<bool>)
    ensures
        r == regex_verdict(pattern@, text@),
{
    match Regex::new(pattern) {
        Ok(re) => Some(re.is_match(text)),
        Err(_) => None,
    }
}

/// The condition on the application id: the window's application has that very id.
pub open spec fn app_id_met(rule: AppWorkspaceRule, window: WindowIdentity) -> bool {
    rule.app_id matches Some(wanted) ==> {
        &&& window.app_bundle_id matches Some(id)
        &&& wanted@ == id@
    }
}

/// The condition on the application name: one of the two names occurs in the other.
pub open spec fn app_name_met(rule: AppWorkspaceRule, window: WindowIdentity) -> bool {
    rule.app_name matches Some(wanted) ==> {
        &&& window.app_name matches Some(name)
        &&& crate::common::text::occurs_in(wanted@, name@) || crate::common::text::occurs_in(
            name@,
            wanted@,
        )
    }
}

/// The condition on the title as a regular expression, given what matching it came to.
pub open spec fn title_regex_met(
    rule: AppWorkspaceRule,
    window: WindowIdentity,
    verdict: Option<bool>,
) -> bool {
    rule.title_regex matches Some(wanted) ==> {
        &&& wanted@.len() > 0
        &&& window.window_title is Some
        &&& verdict == Some(true)
    }
}

/// The condition on the title as a substring.
pub open spec fn title_substring_met(rule: AppWorkspaceRule, window: WindowIdentity) -> bool {
    rule.title_substring matches Some(wanted) ==> {
        &&& wanted@.len() > 0
        &&& window.window_title matches Some(title)
        &&& crate::common::text::occurs_in(wanted@, title@)
    }
}

/// A condition on an accessibility attribute: it has that very value, which is not empty.
pub open spec fn attribute_met(wanted: Option<String>, actual: Option<&str>) -> bool {
    wanted matches Some(w) ==> {
        &&& w@.len() > 0
        &&& actual matches Some(a)
        &&& w@ == a@
    }
}

/// The window meets every condition that the rule states.
pub open spec fn rule_met(
    rule: AppWorkspaceRule,
    window: WindowIdentity,
    verdict: Option<bool>,
) -> bool {
    &&& app_id_met(rule, window)
    &&& app_name_met(rule, window)
    &&& title_regex_met(rule, window, verdict)
    &&& title_substring_met(rule, window)
    &&& attribute_met(rule.ax_role, window.ax_role)
    &&& attribute_met(rule.ax_subrole, window.ax_subrole)
}

/// The text is there and not empty.
pub open spec fn stated(s: Option<String>) -> bool {
    s matches Some(t) && t@.len() > 0
}

pub open spec fn one_if(b: bool) -> nat {
    if b {
        1
    } else {
        0
    }
}

/// How specific a rule is: the number of things that it states.
pub open spec fn specificity(rule: AppWorkspaceRule) -> nat {
    one_if(stated(rule.app_id)) + one_if(stated(rule.app_name)) + one_if(stated(rule.title_regex))
        + one_if(stated(rule.title_substring)) + one_if(stated(rule.ax_role)) + one_if(
        stated(rule.ax_subrole),
    ) + one_if(rule.workspace is Some)
}

/// Rule `i` is met.
pub open spec fn met_at(
    rules: Seq<AppWorkspaceRule>,
    window: WindowIdentity,
    verdicts: Seq<Option<bool>>,
    i: int,
) -> bool {
    0 <= i < rules.len() && rule_met(rules[i], window, verdicts[i])
}

/// Rule `i` is met and names an application id.
pub open spec fn met_by_id_at(
    rules: Seq<AppWorkspaceRule>,
    window: WindowIdentity,
    verdicts: Seq<Option<bool>>,
    i: int,
) -> bool {
    met_at(rules, window, verdicts, i) && stated(rules[i].app_id)
}

/// Two or more of the rules that are met name an application id.
pub open spec fn grouped(
    rules: Seq<AppWorkspaceRule>,
    window: WindowIdentity,
    verdicts: Seq<Option<bool>>,
) -> bool {
    exists|i: int, j: int|
        #![trigger met_by_id_at(rules, window, verdicts, i), met_by_id_at(rules, window, verdicts, j)]
        i < j && met_by_id_at(rules, window, verdicts, i) && met_by_id_at(
            rules,
            window,
            verdicts,
            j,
        )
}

/// Rule `i` is a candidate: it is met, and where two or more rules that are met name an
/// application id, it is one of those.
pub open spec fn candidate(
    rules: Seq<AppWorkspaceRule>,
    window: WindowIdentity,
    verdicts: Seq<Option<bool>>,
    i: int,
) -> bool {
    &&& met_at(rules, window, verdicts, i)
    &&& grouped(rules, window, verdicts) ==> stated(rules[i].app_id)
}

/// Rule `i` comes before rule `j`: it is more specific, or as specific and stands no later.
pub open spec fn precedes(rules: Seq<AppWorkspaceRule>, i: int, j: int) -> bool {
    specificity(rules[i]) > specificity(rules[j]) || (specificity(rules[i]) == specificity(rules[j])
        && i <= j)
}

/// `chosen` is the rule that applies to the window: the first of the candidates, or none when no
/// rule is met.
pub open spec fn selects(
    rules: Seq<AppWorkspaceRule>,
    window: WindowIdentity,
    verdicts: Seq<Option<bool>>,
    chosen: Option<usize>,
) -> bool {
    match chosen {
        Some(i) => {
            &&& candidate(rules, window, verdicts, i as int)
            &&& forall|j: int| #[trigger]
                candidate(rules, window, verdicts, j) ==> precedes(rules, i as int, j)
        },
        None => forall|j: int| !#[trigger] met_at(rules, window, verdicts, j),
    }
}

/// What matching the title of the window against the rule's regular expression comes to.
pub open spec fn title_verdict(rule: AppWorkspaceRule, window: WindowIdentity) -> Option<bool> {
    match (rule.title_regex, window.window_title) {
        (Some(pattern), Some(title)) => regex_verdict(pattern@, title@),
        _ => None,
    }
}

pub open spec fn title_verdicts(
    rules: Seq<AppWorkspaceRule>,
    window: WindowIdentity,
) -> Seq<Option<bool>> {
    Seq::new(rules.len(), |i: int| title_verdict(rules[i], window))
}

/// At most one rule applies to a window.
pub proof fn at_most_one_rule_applies(
    rules: Seq<AppWorkspaceRule>,
    window: WindowIdentity,
    verdicts: Seq<Option<bool>>,
    a: Option<usize>,
    b: Option<usize>,
)
    requires
        selects(rules, window, verdicts, a),
        selects(rules, window, verdicts, b),
    ensures
        a == b,
{
    if let Some(i) = a {
        assert(met_at(rules, window, verdicts, i as int));
        if let Some(j) = b {
            assert(precedes(rules, i as int, j as int));
            assert(precedes(rules, j as int, i as int));
        }
    } else if let Some(j) = b {
        assert(met_at(rules, window, verdicts, j as int));
    }
}

/// The first of the candidates among the first rules, if there is one.
proof fn lemma_first_candidate(
    rules: Seq<AppWorkspaceRule>,
    window: WindowIdentity,
    verdicts: Seq<Option<bool>>,
    n: nat,
) -> (r: Option<int>)
    ensures
        match r {
            Some(i) => {
                &&& i < n
                &&& candidate(rules, window, verdicts, i)
                &&& forall|j: int|
                    j < n && #[trigger] candidate(rules, window, verdicts, j) ==> precedes(
                        rules,
                        i,
                        j,
                    )
            },
            None => forall|j: int| j < n ==> !#[trigger] candidate(rules, window, verdicts, j),
        },
    decreases n,
{
    if n == 0 {
        None
    } else {
        let last = n - 1;
        let r = lemma_first_candidate(rules, window, verdicts, last as nat);
        if !candidate(rules, window, verdicts, last) {
            r
        } else {
            match r {
                Some(i) if precedes(rules, i, last) => r,
                _ => Some(last),
            }
        }
    }
}

/// To every window some rule applies, or none is met.
pub proof fn some_choice_applies(
    rules: Seq<AppWorkspaceRule>,
    window: WindowIdentity,
    verdicts: Seq<Option<bool>>,
) -> (chosen: Option<usize>)
    requires
        rules.len() <= usize::MAX,
    ensures
        selects(rules, window, verdicts, chosen),
{
    match lemma_first_candidate(rules, window, verdicts, rules.len()) {
        Some(i) => Some(i as usize),
        None => {
            assert forall|j: int| !#[trigger] met_at(rules, window, verdicts, j) by {
                if met_at(rules, window, verdicts, j) {
                    assert(!candidate(rules, window, verdicts, j));
                    let (a, b) = choose|a: int, b: int|
                        #![trigger met_by_id_at(rules, window, verdicts, a), met_by_id_at(rules, window, verdicts, b)]
                        a < b && met_by_id_at(rules, window, verdicts, a) && met_by_id_at(
                            rules,
                            window,
                            verdicts,
                            b,
                        );
                    assert(candidate(rules, window, verdicts, a));
                }
            }
            None
        },
    }
}

/// Which rule applies hangs on which rules are met alone.
proof fn lemma_selects_by_met(
    rules: Seq<AppWorkspaceRule>,
    window: WindowIdentity,
    verdicts: Seq<Option<bool>>,
    others: Seq<Option<bool>>,
    chosen: Option<usize>,
)
    requires
        selects(rules, window, verdicts, chosen),
        forall|i: int| #[trigger]
            met_at(rules, window, verdicts, i) == met_at(rules, window, others, i),
    ensures
        selects(rules, window, others, chosen),
{
    assert forall|i: int| #[trigger]
        met_by_id_at(rules, window, verdicts, i) == met_by_id_at(rules, window, others, i) by {
        assert(met_at(rules, window, verdicts, i) == met_at(rules, window, others, i));
    }
    assert(grouped(rules, window, verdicts) == grouped(rules, window, others)) by {
        if grouped(rules, window, others) {
            let (a, b) = choose|a: int, b: int|
                #![trigger met_by_id_at(rules, window, others, a), met_by_id_at(rules, window, others, b)]
                a < b && met_by_id_at(rules, window, others, a) && met_by_id_at(
                    rules,
                    window,
                    others,
                    b,
                );
            assert(met_by_id_at(rules, window, verdicts, a));
            assert(met_by_id_at(rules, window, verdicts, b));
        }
    }
    assert forall|j: int| #[trigger]
        candidate(rules, window, others, j) implies candidate(rules, window, verdicts, j) by {
        assert(met_at(rules, window, verdicts, j) == met_at(rules, window, others, j));
    }
    if let Some(i) = chosen {
        assert(met_at(rules, window, verdicts, i as int) == met_at(rules, window, others, i as int));
    } else {
        assert forall|j: int| !#[trigger] met_at(rules, window, others, j) by {
            assert(!met_at(rules, window, verdicts, j));
        }
    }
}

/// All the rules that a window meets and that name an application id name the same one.
pub proof fn met_rules_name_one_application(
    rules: Seq<AppWorkspaceRule>,
    window: WindowIdentity,
    verdicts: Seq<Option<bool>>,
    i: int,
    j: int,
)
    requires
        met_by_id_at(rules, window, verdicts, i),
        met_by_id_at(rules, window, verdicts, j),
    ensures
        rules[i].app_id->0@ == rules[j].app_id->0@,
{
}

fn is_stated(s: &Option<String>) -> (r: bool)
    ensures
        r == stated(*s),
{
    match s {
        Some(t) => !t.as_str().is_empty(),
        None => false,
    }
}

fn attribute_is_met(wanted: &Option<String>, actual: Option<&str>) -> (r: bool)
    ensures
        r == attribute_met(*wanted, actual),
{
    match wanted {
        Some(w) => match actual {
            Some(a) => !w.as_str().is_empty() && same_text(w.as_str(), a),
            None => false,
        },
        None => true,
    }
}

/// Whether the window is of the application that the rule is for.
fn is_for_app(rule: &AppWorkspaceRule, window: &WindowIdentity) -> (r: bool)
    ensures
        r == (app_id_met(*rule, *window) && app_name_met(*rule, *window)),
{
    if let Some(wanted) = &rule.app_id {
        match window.app_bundle_id {
            Some(id) => {
                if !same_text(wanted.as_str(), id) {
                    return false;
                }
            },
            None => {
                return false;
            },
        }
    }
    match &rule.app_name {
        Some(wanted) => match window.app_name {
            Some(name) => contains_text(name, wanted.as_str()) || contains_text(
                wanted.as_str(),
                name,
            ),
            None => false,
        },
        None => true,
    }
}

/// Whether the window meets the rule, given what matching its title came to.
pub fn rule_is_met(rule: &AppWorkspaceRule, window: &WindowIdentity, verdict: Option<bool>) -> (r:
    bool)
    ensures
        r == rule_met(*rule, *window, verdict),
{
    if !is_for_app(rule, window) {
        return false;
    }
    if let Some(wanted) = &rule.title_regex {
        if wanted.as_str().is_empty() || window.window_title.is_none() {
            return false;
        }
        match verdict {
            Some(true) => {},
            _ => {
                return false;
            },
        }
    }
    if let Some(wanted) = &rule.title_substring {
        if wanted.as_str().is_empty() {
            return false;
        }
        match window.window_title {
            Some(title) => {
                if !contains_text(title, wanted.as_str()) {
                    return false;
                }
            },
            None => {
                return false;
            },
        }
    }
    attribute_is_met(&rule.ax_role, window.ax_role) && attribute_is_met(
        &rule.ax_subrole,
        window.ax_subrole,
    )
}

/// The number of things that a rule states.
pub fn rule_specificity(rule: &AppWorkspaceRule) -> (r: usize)
    ensures
        r == specificity(*rule),
{
    let mut score: usize = 0;
    if is_stated(&rule.app_id) {
        score += 1;
    }
    if is_stated(&rule.app_name) {
        score += 1;
    }
    if is_stated(&rule.title_regex) {
        score += 1;
    }
    if is_stated(&rule.title_substring) {
        score += 1;
    }
    if is_stated(&rule.ax_role) {
        score += 1;
    }
    if is_stated(&rule.ax_subrole) {
        score += 1;
    }
    if rule.workspace.is_some() {
        score += 1;
    }
    score
}

/// The first, by specificity and then by place, of the rules whose indices are given.
fn first_of(rules: &Vec<AppWorkspaceRule>, indices: &Vec<usize>) -> (r: usize)
    requires
        indices@.len() > 0,
        forall|k: int| 0 <= k < indices@.len() ==> (#[trigger] indices@[k]) < rules@.len(),
    ensures
        indices@.contains(r),
        forall|k: int|
            0 <= k < indices@.len() ==> precedes(rules@, r as int, (#[trigger] indices@[k]) as int),
{
    let mut best: usize = indices[0];
    let mut best_score: usize = rule_specificity(&rules[best]);
    let mut k: usize = 1;
    assert(indices@[0] == best);
    while k < indices.len()
        invariant
            1 <= k <= indices@.len(),
            indices@.contains(best),
            best < rules@.len(),
            best_score == specificity(rules@[best as int]),
            forall|k: int| 0 <= k < indices@.len() ==> (#[trigger] indices@[k]) < rules@.len(),
            forall|m: int|
                0 <= m < k ==> precedes(rules@, best as int, (#[trigger] indices@[m]) as int),
        decreases indices@.len() - k,
    {
        let i = indices[k];
        let score = rule_specificity(&rules[i]);
        if score > best_score || (score == best_score && i < best) {
            best = i;
            best_score = score;
        }
        k += 1;
    }
    best
}

/// Picks the rule that applies to a window, given what matching its title against the regular
/// expression of each rule came to.
pub fn select_rule(
    rules: &Vec<AppWorkspaceRule>,
    window: &WindowIdentity,
    verdicts: &Vec<Option<bool>>,
) -> (r: Option<usize>)
    requires
        verdicts@.len() == rules@.len(),
    ensures
        selects(rules@, *window, verdicts@, r),
{
    let mut met: Vec<usize> = Vec::new();
    let mut by_id: Vec<usize> = Vec::new();
    let mut i: usize = 0;
    while i < rules.len()
        invariant
            i <= rules@.len(),
            verdicts@.len() == rules@.len(),
            forall|k: int|
                0 <= k < met@.len() ==> met_at(
                    rules@,
                    *window,
                    verdicts@,
                    (#[trigger] met@[k]) as int,
                ),
            forall|k: int|
                0 <= k < by_id@.len() ==> by_id@[k] < i && met_by_id_at(
                    rules@,
                    *window,
                    verdicts@,
                    (#[trigger] by_id@[k]) as int,
                ),
            forall|k: int, m: int| 0 <= k < m < by_id@.len() ==> by_id@[k] < by_id@[m],
            forall|j: int|
                0 <= j < i && #[trigger] met_at(rules@, *window, verdicts@, j) ==> met@.contains(
                    j as usize,
                ),
            forall|j: int|
                0 <= j < i && #[trigger] met_by_id_at(rules@, *window, verdicts@, j)
                    ==> by_id@.contains(j as usize),
        decreases rules@.len() - i,
    {
        let ghost met_before = met@;
        let ghost by_id_before = by_id@;
        if rule_is_met(&rules[i], window, verdicts[i]) {
            assert(met_at(rules@, *window, verdicts@, i as int));
            met.push(i);
            assert(met@[met@.len() - 1] == i);
            if is_stated(&rules[i].app_id) {
                by_id.push(i);
                assert(by_id@[by_id@.len() - 1] == i);
            }
        }
        proof {
            assert forall|x: usize| met_before.contains(x) implies met@.contains(x) by {
                let k = choose|k: int| 0 <= k < met_before.len() && met_before[k] == x;
                assert(met@[k] == x);
            }
            assert forall|x: usize| by_id_before.contains(x) implies by_id@.contains(x) by {
                let k = choose|k: int| 0 <= k < by_id_before.len() && by_id_before[k] == x;
                assert(by_id@[k] == x);
            }
        }
        i += 1;
    }
    if met.len() == 0 {
        assert forall|j: int| !#[trigger] met_at(rules@, *window, verdicts@, j) by {
            if met_at(rules@, *window, verdicts@, j) {
                assert(met@.contains(j as usize));
            }
        }
        return None;
    }
    if by_id.len() > 1 {
        proof {
            assert(by_id@[0] < by_id@[1]);
            assert(met_by_id_at(rules@, *window, verdicts@, by_id@[0] as int));
            assert(met_by_id_at(rules@, *window, verdicts@, by_id@[1] as int));
            assert(grouped(rules@, *window, verdicts@));
        }
        let r = first_of(rules, &by_id);
        proof {
            let k = choose|k: int| 0 <= k < by_id@.len() && by_id@[k] == r;
            assert(met_by_id_at(rules@, *window, verdicts@, by_id@[k] as int));
            assert forall|j: int| #[trigger]
                candidate(rules@, *window, verdicts@, j) implies precedes(
                rules@,
                r as int,
                j,
            ) by {
                assert(met_by_id_at(rules@, *window, verdicts@, j));
                let m = choose|m: int| 0 <= m < by_id@.len() && by_id@[m] == j as usize;
                assert(by_id@[m] as int == j);
            }
        }
        Some(r)
    } else {
        proof {
            if grouped(rules@, *window, verdicts@) {
                let (a, b) = choose|a: int, b: int|
                    #![trigger met_by_id_at(rules@, *window, verdicts@, a), met_by_id_at(rules@, *window, verdicts@, b)]
                    a < b && met_by_id_at(rules@, *window, verdicts@, a) && met_by_id_at(
                        rules@,
                        *window,
                        verdicts@,
                        b,
                    );
                assert(by_id@.contains(a as usize));
                assert(by_id@.contains(b as usize));
                assert(false);
            }
        }
        let r = first_of(rules, &met);
        proof {
            let k = choose|k: int| 0 <= k < met@.len() && met@[k] == r;
            assert(met_at(rules@, *window, verdicts@, met@[k] as int));
            assert forall|j: int| #[trigger]
                candidate(rules@, *window, verdicts@, j) implies precedes(
                rules@,
                r as int,
                j,
            ) by {
                assert(met_at(rules@, *window, verdicts@, j));
                let m = choose|m: int| 0 <= m < met@.len() && met@[m] == j as usize;
                assert(met@[m] as int == j);
            }
        }
        Some(r)
    }
}

/// The rule that applies to a window is the one at the position; `None` when none does.
pub open spec fn rule_applies(
    rules: Seq<AppWorkspaceRule>,
    window: WindowIdentity,
    chosen: Option<usize>,
) -> bool {
    selects(rules, window, title_verdicts(rules, window), chosen)
}

/// What matching the title comes to, as far as it is asked for: it is not when the rule is for
/// another application or states no regular expression.
spec fn asked_verdict(rule: AppWorkspaceRule, window: WindowIdentity) -> Option<bool> {
    if app_id_met(rule, window) && app_name_met(rule, window) && stated(rule.title_regex) {
        title_verdict(rule, window)
    } else {
        None
    }
}

/// Matches the title of a window against the regular expression of a rule, where that decides.
fn ask_verdict(rule: &AppWorkspaceRule, window: &WindowIdentity) -> (r: Option<bool>)
    ensures
        r == asked_verdict(*rule, *window),
{
    if !is_for_app(rule, window) {
        return None;
    }
    match &rule.title_regex {
        Some(pattern) => {
            if pattern.as_str().is_empty() {
                return None;
            }
            match window.window_title {
                Some(title) => match_regex(pattern.as_str(), title),
                None => None,
            }
        },
        None => None,
    }
}

/// Finds the rule that applies to a window.
pub fn find_matching_app_rule(rules: &Vec<AppWorkspaceRule>, window: &WindowIdentity) -> (r: Option<
    usize,
>)
    ensures
        rule_applies(rules@, *window, r),
{
    let mut verdicts: Vec<Option<bool>> = Vec::new();
    let mut i: usize = 0;
    while i < rules.len()
        invariant
            i <= rules@.len(),
            verdicts@.len() == i,
            forall|k: int|
                0 <= k < i ==> (#[trigger] verdicts@[k]) == asked_verdict(rules@[k], *window),
        decreases rules@.len() - i,
    {
        verdicts.push(ask_verdict(&rules[i], window));
        i += 1;
    }
    let r = select_rule(rules, window, &verdicts);
    proof {
        lemma_selects_by_met(
            rules@,
            *window,
            verdicts@,
            title_verdicts(rules@, *window),
            r,
        );
    }
    r
}

} // verus!
