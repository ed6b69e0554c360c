//! The rule evaluator: OS-conditional `allow`/`disallow` rules attached to
//! libraries and argument entries.
//!
//! An absent or empty rule list always allows. A present, non-empty list is
//! an opt-out filter: the running verdict starts at `false`, every rule that
//! structurally matches the platform overwrites it with its action, and the
//! last matching rule wins. A rule carrying a `features` key never matches.
use vstd::prelude::*;
use crate::model::{opt_rules_view, Rule, RuleView};
use crate::platform::{os_key_spec, os_key_str, Os};
use crate::text::str_eq;

verus! {

/// Whether a rule structurally matches the platform named by `os_key`.
pub open spec fn rule_matches(r: RuleView, os_key: Seq<char>) -> bool {
    &&& !r.has_features
    &&& match r.os_name {
        Option::None => true,
        Option::Some(n) => n == os_key,
    }
}

/// The fold of the rules in order, starting from verdict `acc`.
pub open spec fn eval_rules_from(rs: Seq<RuleView>, os_key: Seq<char>, acc: bool) -> bool
    decreases rs.len(),
{
    if rs.len() == 0 {
        acc
    } else {
        eval_rules_from(
            rs.drop_first(),
            os_key,
            if rule_matches(rs[0], os_key) {
                rs[0].allow
            } else {
                acc
            },
        )
    }
}

/// The verdict of an optional rule list on the platform named by `os_key`.
pub open spec fn eval_rules(rs: Option<Seq<RuleView>>, os_key: Seq<char>) -> bool {
    match rs {
        Option::None => true,
        Option::Some(list) => if list.len() == 0 {
            true
        } else {
            eval_rules_from(list, os_key, false)
        },
    }
}

/// Whether one executable rule matches the platform `os`.
fn rule_matches_exec(r: &Rule, os: Os) -> (b: bool)
    ensures
        b == rule_matches(r@, os_key_spec(os)),
{
    if r.has_features {
        return false;
    }
    match &r.os_name {
        Option::None => true,
        Option::Some(n) => str_eq(n.as_str(), os_key_str(os)),
    }
}

/// Evaluates an optional rule list for platform `os`.
///
/// Returns `true` exactly when the rules let the gated item through.
pub fn check_rules(rules: &Option<Vec<Rule>>, os: Os) -> (b: bool)
    ensures
        b == eval_rules(opt_rules_view(*rules), os_key_spec(os)),
{
    let list = match rules {
        Option::None => {
            return true;
        },
        Option::Some(list) => list,
    };
    if list.len() == 0 {
        return true;
    }
    let ghost rv = crate::model::rules_view(list@);
    proof {
        assert(rv.subrange(0, rv.len() as int) =~= rv);
    }
    let mut acc = false;
    let mut i: usize = 0;
    while i < list.len()
        invariant
            i <= list@.len(),
            rv == crate::model::rules_view(list@),
            rv.len() == list@.len(),
            eval_rules_from(rv, os_key_spec(os), false) == eval_rules_from(
                rv.subrange(i as int, rv.len() as int),
                os_key_spec(os),
                acc,
            ),
        decreases list@.len() - i,
    {
        let ghost pre = rv.subrange(i as int, rv.len() as int);
        if rule_matches_exec(&list[i], os) {
            acc = list[i].allow;
        }
        i = i + 1;
        proof {
            assert(pre.drop_first() =~= rv.subrange(i as int, rv.len() as int));
            assert(pre[0] == rv[i - 1]);
        }
    }
    proof {
        assert(rv.subrange(rv.len() as int, rv.len() as int) =~= Seq::<RuleView>::empty());
    }
    acc
}

/// The index of the last rule of `rs` that matches, if any.
pub open spec fn last_match(rs: Seq<RuleView>, os_key: Seq<char>) -> Option<int>
    decreases rs.len(),
{
    if rs.len() == 0 {
        Option::None
    } else if rule_matches(rs.last(), os_key) {
        Option::Some(rs.len() - 1)
    } else {
        last_match(rs.drop_last(), os_key)
    }
}

/// Last-match-wins: the fold of a rule list yields the action of the last
/// matching rule, and keeps the starting verdict when none matches. The
/// verdict never depends on anything but that one rule, so evaluation is
/// insensitive to the order of the rules before it and unchanged on repeat.
pub proof fn lemma_last_match_wins(rs: Seq<RuleView>, os_key: Seq<char>, acc: bool)
    ensures
        match last_match(rs, os_key) {
            Option::Some(i) => 0 <= i < rs.len() && rule_matches(rs[i], os_key) && (forall|j: int|
                i < j < rs.len() ==> !rule_matches(rs[j], os_key)) && eval_rules_from(rs, os_key, acc)
                == rs[i].allow,
            Option::None => (forall|j: int| 0 <= j < rs.len() ==> !rule_matches(rs[j], os_key))
                && eval_rules_from(rs, os_key, acc) == acc,
        },
    decreases rs.len(),
{
    if rs.len() > 0 {
        let first = rs[0];
        let rest = rs.drop_first();
        let acc2 = if rule_matches(first, os_key) {
            first.allow
        } else {
            acc
        };
        lemma_last_match_wins(rest, os_key, acc2);
        lemma_last_match_commute(rs, os_key);
        if rs.len() == 1 {
            assert(rest =~= Seq::<RuleView>::empty());
            assert(rs.last() == rs[0]);
        }
        match last_match(rest, os_key) {
            Option::Some(i) => {
                assert(rest[i] == rs[i + 1]);
                assert forall|j: int| i + 1 < j < rs.len() implies !rule_matches(
                    rs[j],
                    os_key,
                ) by {
                    assert(rs[j] == rest[j - 1]);
                }
            },
            Option::None => {
                assert forall|j: int| 1 <= j < rs.len() implies !rule_matches(rs[j], os_key) by {
                    assert(rs[j] == rest[j - 1]);
                }
            },
        }
    }
}

/// `last_match` looked at through `drop_first`: dropping a non-final rule
/// shifts the index by one.
proof fn lemma_last_match_commute(rs: Seq<RuleView>, os_key: Seq<char>)
    requires
        rs.len() >= 1,
    ensures
        match last_match(rs.drop_first(), os_key) {
            Option::Some(i) => last_match(rs, os_key) == Option::Some(i + 1),
            Option::None => last_match(rs, os_key) == if rule_matches(rs[0], os_key) {
                Option::Some(0int)
            } else {
                Option::<int>::None
            },
        },
    decreases rs.len(),
{
    let rest = rs.drop_first();
    if rs.len() == 1 {
        assert(rest =~= Seq::<RuleView>::empty());
        assert(rs.drop_last() =~= Seq::<RuleView>::empty());
        if rule_matches(rs.last(), os_key) {
            assert(rs.last() == rs[0]);
        }
    } else {
        assert(rest.last() == rs.last());
        if !rule_matches(rs.last(), os_key) {
            assert(rest.drop_last() =~= rs.drop_last().drop_first());
            lemma_last_match_commute(rs.drop_last(), os_key);
            assert(rs.drop_last()[0] == rs[0]);
        }
    }
}

} // verus!
