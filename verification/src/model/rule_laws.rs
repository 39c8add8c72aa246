//! What it takes for a rule to apply to a window, condition by condition.
use vstd::prelude::*;
use crate::common::config::{AppWorkspaceRule, WorkspaceSelector};
use crate::model::app_rules::WindowIdentity;
use crate::model::ids::{DisplayId, VirtualWorkspaceId, WindowId};
use crate::model::manager_model::ManagerModel;
use crate::model::workspace::WorkspaceError;

verus! {

/// A rule that applies to a window is one of the rules, and the window meets each condition that it
/// states: it is of that application, one of the two application names stands in the other, its
/// title matches the expression and holds the text, and it has that role and that subrole. No
/// condition on title, role or subrole that is stated is empty.
pub proof fn applying_rule_fits_the_window(
    rules: Seq<AppWorkspaceRule>,
    window: WindowIdentity,
    i: usize,
)
    requires
        crate::model::app_rules::rule_applies(rules, window, Some(i)),
    ensures
        i < rules.len(),
        rules[i as int].app_id matches Some(wanted) ==> window.app_bundle_id is Some && wanted@
            == window.app_bundle_id->0@,
        rules[i as int].app_name matches Some(wanted) ==> window.app_name is Some && exists|
            front: Seq<char>,
            back: Seq<char>,
        |
            {
                ||| window.app_name->0@ == #[trigger] (front + wanted@ + back)
                ||| wanted@ == front + window.app_name->0@ + back
            },
        rules[i as int].title_regex matches Some(wanted) ==> {
            &&& wanted@.len() > 0
            &&& window.window_title is Some
            &&& crate::model::app_rules::regex_verdict(wanted@, window.window_title->0@) == Some(
                true,
            )
        },
        rules[i as int].title_substring matches Some(wanted) ==> {
            &&& wanted@.len() > 0
            &&& window.window_title is Some
            &&& exists|front: Seq<char>, back: Seq<char>|
                window.window_title->0@ == #[trigger] (front + wanted@ + back)
        },
        rules[i as int].ax_role matches Some(wanted) ==> {
            &&& wanted@.len() > 0
            &&& window.ax_role is Some
            &&& wanted@ == window.ax_role->0@
        },
        rules[i as int].ax_subrole matches Some(wanted) ==> {
            &&& wanted@.len() > 0
            &&& window.ax_subrole is Some
            &&& wanted@ == window.ax_subrole->0@
        },
{
    let rule = rules[i as int];
    if let Some(wanted) = rule.app_name {
        let name = window.app_name->0@;
        if crate::common::text::occurs_in(wanted@, name) {
            let (front, back) = crate::common::text::occurrence_splits(wanted@, name);
        } else {
            let (front, back) = crate::common::text::occurrence_splits(name, wanted@);
            assert(wanted@ == front + name + back);
            let _ = front + wanted@ + back;
        }
    }
    if let Some(wanted) = rule.title_substring {
        let (front, back) = crate::common::text::occurrence_splits(
            wanted@,
            window.window_title->0@,
        );
    }
}

/// One of two names stands in the other.
pub open spec fn one_in_the_other(a: Seq<char>, b: Seq<char>) -> bool {
    exists|front: Seq<char>, back: Seq<char>|
        {
            ||| b == #[trigger] (front + a + back)
            ||| a == front + b + back
        }
}

/// The window has all that the rule asks for.
pub open spec fn fits(rule: AppWorkspaceRule, window: WindowIdentity) -> bool {
    &&& (rule.app_id matches Some(wanted) ==> window.app_bundle_id is Some && wanted@
        == window.app_bundle_id->0@)
    &&& (rule.app_name matches Some(wanted) ==> window.app_name is Some && one_in_the_other(
        wanted@,
        window.app_name->0@,
    ))
    &&& (rule.title_regex matches Some(wanted) ==> {
        &&& wanted@.len() > 0
        &&& window.window_title is Some
        &&& crate::model::app_rules::regex_verdict(wanted@, window.window_title->0@) == Some(true)
    })
    &&& (rule.title_substring matches Some(wanted) ==> {
        &&& wanted@.len() > 0
        &&& window.window_title is Some
        &&& exists|front: Seq<char>, back: Seq<char>|
            window.window_title->0@ == #[trigger] (front + wanted@ + back)
    })
    &&& (rule.ax_role matches Some(wanted) ==> {
        &&& wanted@.len() > 0
        &&& window.ax_role is Some
        &&& wanted@ == window.ax_role->0@
    })
    &&& (rule.ax_subrole matches Some(wanted) ==> {
        &&& wanted@.len() > 0
        &&& window.ax_subrole is Some
        &&& wanted@ == window.ax_subrole->0@
    })
}

proof fn lemma_fits_is_met(
    rules: Seq<AppWorkspaceRule>,
    window: WindowIdentity,
    k: int,
)
    requires
        0 <= k < rules.len(),
    ensures
        crate::model::app_rules::met_at(
            rules,
            window,
            crate::model::app_rules::title_verdicts(rules, window),
            k,
        ) == fits(rules[k], window),
{
    let rule = rules[k];
    if let Some(wanted) = rule.app_name {
        if let Some(actual) = window.app_name {
            let name = actual@;
            if crate::common::text::occurs_in(wanted@, name) {
                let (front, back) = crate::common::text::occurrence_splits(wanted@, name);
                assert(one_in_the_other(wanted@, name));
            }
            if crate::common::text::occurs_in(name, wanted@) {
                let (front, back) = crate::common::text::occurrence_splits(name, wanted@);
                assert(wanted@ == front + name + back);
                let _ = front + wanted@ + back;
                assert(one_in_the_other(wanted@, name));
            }
            if one_in_the_other(wanted@, name) {
                let (front, back) = choose|front: Seq<char>, back: Seq<char>|
                    {
                        ||| name == #[trigger] (front + wanted@ + back)
                        ||| wanted@ == front + name + back
                    };
                crate::common::text::enclosed_text_occurs(front, wanted@, back);
                crate::common::text::enclosed_text_occurs(front, name, back);
            }
        }
    }
    if let Some(wanted) = rule.title_substring {
        if let Some(actual) = window.window_title {
            let title = actual@;
            if crate::common::text::occurs_in(wanted@, title) {
                let (front, back) = crate::common::text::occurrence_splits(wanted@, title);
                assert(title == front + wanted@ + back);
            }
            if exists|front: Seq<char>, back: Seq<char>|
                title == #[trigger] (front + wanted@ + back) {
                let (front, back) = choose|front: Seq<char>, back: Seq<char>|
                    title == #[trigger] (front + wanted@ + back);
                crate::common::text::enclosed_text_occurs(front, wanted@, back);
            }
        }
    }
}

/// A rule applies to a window exactly when the window has all that some rule asks for.
pub proof fn some_rule_applies_when_one_fits(
    rules: Seq<AppWorkspaceRule>,
    window: WindowIdentity,
    chosen: Option<usize>,
)
    requires
        crate::model::app_rules::rule_applies(rules, window, chosen),
    ensures
        chosen is Some <==> exists|k: int| 0 <= k < rules.len() && fits(#[trigger] rules[k], window),
        chosen matches Some(i) ==> i < rules.len() && fits(rules[i as int], window),
{
    let verdicts = crate::model::app_rules::title_verdicts(rules, window);
    if let Some(i) = chosen {
        lemma_fits_is_met(rules, window, i as int);
    } else {
        assert forall|k: int| 0 <= k < rules.len() implies !fits(#[trigger] rules[k], window) by {
            lemma_fits_is_met(rules, window, k);
            assert(!crate::model::app_rules::met_at(rules, window, verdicts, k));
        }
    }
}

/// The text is there, and it is not empty.
pub open spec fn says_something(text: Option<String>) -> bool {
    text is Some && text->0@ != Seq::<char>::empty()
}

/// The number of conditions that a rule states with a text that is not empty, and one more when it
/// names a workspace.
pub open spec fn weight(rule: AppWorkspaceRule) -> int {
    seq![
        says_something(rule.app_id),
        says_something(rule.app_name),
        says_something(rule.title_regex),
        says_something(rule.title_substring),
        says_something(rule.ax_role),
        says_something(rule.ax_subrole),
        rule.workspace is Some,
    ].fold_left(0, |n: int, stated: bool| if stated { n + 1 } else { n })
}

proof fn lemma_weight(rule: AppWorkspaceRule)
    ensures
        weight(rule) == crate::model::app_rules::specificity(rule),
        says_something(rule.app_id) == crate::model::app_rules::stated(rule.app_id),
{
    assert forall|text: Option<String>| says_something(text)
        == #[trigger] crate::model::app_rules::stated(text) by {
        if text is Some && text->0@.len() == 0 {
            assert(text->0@ =~= Seq::<char>::empty());
        }
    }
    reveal_with_fuel(Seq::fold_left, 8);
}

/// Of the rules that fit a window the one with the most conditions applies, and of those with
/// equally many the first. Where two rules or more that fit name an application id, only those that
/// do are in question.
pub proof fn heaviest_fitting_rule_applies(
    rules: Seq<AppWorkspaceRule>,
    window: WindowIdentity,
    i: usize,
    k: int,
)
    requires
        crate::model::app_rules::rule_applies(rules, window, Some(i)),
        0 <= k < rules.len(),
        k != i,
        fits(rules[k], window),
    ensures
        ({
            ||| weight(rules[i as int]) > weight(rules[k])
            ||| weight(rules[i as int]) == weight(rules[k]) && i < k
            ||| says_something(rules[i as int].app_id) && !says_something(rules[k].app_id)
                && exists|j: int|
                0 <= j < rules.len() && j != i && fits(#[trigger] rules[j], window)
                    && says_something(rules[j].app_id)
        }),
        says_something(rules[k].app_id) ==> {
            ||| !says_something(rules[i as int].app_id) && forall|j: int|
                0 <= j < rules.len() && j != k && fits(#[trigger] rules[j], window)
                    ==> !says_something(rules[j].app_id)
            ||| says_something(rules[i as int].app_id)
        },
{
    let verdicts = crate::model::app_rules::title_verdicts(rules, window);
    let i = i as int;
    lemma_fits_is_met(rules, window, k);
    lemma_fits_is_met(rules, window, i);
    lemma_weight(rules[i]);
    lemma_weight(rules[k]);
    assert(crate::model::app_rules::candidate(rules, window, verdicts, i));
    if crate::model::app_rules::candidate(rules, window, verdicts, k) {
        assert(crate::model::app_rules::precedes(rules, i, k));
    } else {
        let (a, b) = choose|a: int, b: int|
            #![trigger crate::model::app_rules::met_by_id_at(rules, window, verdicts, a), crate::model::app_rules::met_by_id_at(rules, window, verdicts, b)]
            a < b && crate::model::app_rules::met_by_id_at(rules, window, verdicts, a)
                && crate::model::app_rules::met_by_id_at(rules, window, verdicts, b);
        lemma_fits_is_met(rules, window, a);
        lemma_fits_is_met(rules, window, b);
        lemma_weight(rules[a]);
        lemma_weight(rules[b]);
        let j = if a == i { b } else { a };
        assert(fits(rules[j], window) && says_something(rules[j].app_id));
    }
    if says_something(rules[k].app_id) && !says_something(rules[i].app_id) {
        assert forall|j: int|
            0 <= j < rules.len() && j != k && fits(#[trigger] rules[j], window) implies
            !says_something(rules[j].app_id) by {
            lemma_fits_is_met(rules, window, j);
            lemma_weight(rules[j]);
            if says_something(rules[j].app_id) {
                assert(crate::model::app_rules::met_by_id_at(rules, window, verdicts, j));
                assert(crate::model::app_rules::met_by_id_at(rules, window, verdicts, k));
                assert(crate::model::app_rules::grouped(rules, window, verdicts));
            }
        }
    }
}

/// A window that is new on a display floats, and goes to the workspace at an index, exactly as the rule
/// says that applies to what its application says of it: bundle, name, title, role and subrole, each
/// taken for what it is. Where none applies, it does not float and goes to the workspace that the
/// display shows. The result is the position of that rule.
pub proof fn window_is_assigned_by_the_rule_that_applies(
    before: ManagerModel,
    after: ManagerModel,
    display: DisplayId,
    window: WindowId,
    bundle: Option<&str>,
    name: Option<&str>,
    title: Option<&str>,
    role: Option<&str>,
    subrole: Option<&str>,
    result: Result<(VirtualWorkspaceId, bool), WorkspaceError>,
) -> (chosen: Option<usize>)
    requires
        before.wf(),
        before.settings.max_workspaces >= 1,
        !before.assigned.contains_key((display, window)),
        crate::model::virtual_workspace::assigns_by_info(
            before,
            after,
            display,
            window,
            crate::model::virtual_workspace::identity(bundle, name, title, role, subrole),
            result,
        ),
    ensures
        result is Ok,
        crate::model::app_rules::rule_applies(
            before.settings.app_rules,
            (WindowIdentity {
                app_bundle_id: bundle,
                app_name: name,
                window_title: title,
                ax_role: role,
                ax_subrole: subrole,
            }),
            chosen,
        ),
        after.by_display.contains_key(display),
        after.active.contains_key(display),
        chosen is None ==> !result->Ok_0.1 && result->Ok_0.0 == after.active[display].1,
        chosen matches Some(i) ==> {
            let rule = before.settings.app_rules[i as int];
            &&& result->Ok_0.1 == rule.floating
            &&& rule.workspace is None ==> result->Ok_0.0 == after.active[display].1
            &&& rule.workspace matches Some(WorkspaceSelector::Index(n)) ==> n
                < after.by_display[display].len() ==> result->Ok_0.0
                == after.by_display[display][n as int]
        },
{
    let who = crate::model::virtual_workspace::identity(bundle, name, title, role, subrole);
    let rules = before.settings.app_rules;
    let chosen = choose|chosen: Option<usize>| #[trigger]
        crate::model::app_rules::rule_applies(rules, who, chosen) && before.assigns_by_rule(
            after,
            display,
            window,
            crate::model::manager_model::rule_at(rules, chosen),
            result,
        );
    let rule = crate::model::manager_model::rule_at(rules, chosen);
    crate::model::laws::rule_decides_the_workspace(before, after, display, window, rule, result);
    crate::model::request_laws::rule_decides_whether_a_window_floats(
        before,
        after,
        display,
        window,
        rule,
        result,
    );
    chosen
}

} // verus!
