//! Conditions over the game's state flags (text key to text value).
use vstd::prelude::*;
use crate::strmap::StrMap;

verus! {

/// How a single check compares a flag.
#[derive(Debug, Clone, Copy, PartialEq, Eq, Structural)]
pub enum ConditionOperator {
    Equals,
    NotEquals,
    Exists,
    NotExists,
}

/// How the checks of a condition combine.
#[derive(Debug, Clone, Copy, PartialEq, Eq, Structural)]
pub enum ConditionLogic {
    All,
    Any,
}

/// One comparison against the flag named `key`.
#[derive(Debug, Clone, PartialEq, Eq)]
pub struct ConditionCheck {
    pub key: String,
    pub operator: ConditionOperator,
    pub value: Option<String>,
}

/// A list of checks combined with all/any logic.
#[derive(Debug, Clone, PartialEq, Eq)]
pub struct BranchCondition {
    pub logic: ConditionLogic,
    pub checks: Vec<ConditionCheck>,
}

/// The state flags as a mathematical map from keys to values.
pub open spec fn flag_view(flags: Map<Seq<char>, String>) -> Map<Seq<char>, Seq<char>> {
    flags.map_values(|v: String| v@)
}

/// The flag `key` is set and holds `value`, or, without a value, is set at all.
pub open spec fn flag_matches(flags: Map<Seq<char>, Seq<char>>, key: Seq<char>, value: Option<Seq<char>>) -> bool {
    match value {
        Some(v) => flags.contains_key(key) && flags[key] == v,
        None => flags.contains_key(key),
    }
}

pub open spec fn opt_view(v: Option<String>) -> Option<Seq<char>> {
    match v {
        Some(s) => Some(s@),
        None => None,
    }
}

/// A check as values: flag key, operator, compared value.
pub type CheckView = (Seq<char>, ConditionOperator, Option<Seq<char>>);

/// A condition as values: logic and checks.
pub type ConditionView = (ConditionLogic, Seq<CheckView>);

pub open spec fn check_view(c: ConditionCheck) -> CheckView {
    (c.key@, c.operator, opt_view(c.value))
}

pub open spec fn condition_view(c: BranchCondition) -> ConditionView {
    (c.logic, c.checks@.map_values(|k: ConditionCheck| check_view(k)))
}

/// Whether one check holds against the flags.
pub open spec fn check_view_holds(flags: Map<Seq<char>, Seq<char>>, c: CheckView) -> bool {
    match c.1 {
        ConditionOperator::Equals => flag_matches(flags, c.0, c.2),
        ConditionOperator::NotEquals => !flag_matches(flags, c.0, c.2),
        ConditionOperator::Exists => flags.contains_key(c.0),
        ConditionOperator::NotExists => !flags.contains_key(c.0),
    }
}

/// Whether a condition holds: all checks (`All`, true when there are none)
/// or at least one check (`Any`, false when there are none).
pub open spec fn condition_view_holds(flags: Map<Seq<char>, Seq<char>>, cond: ConditionView) -> bool {
    match cond.0 {
        ConditionLogic::All => forall|i: int|
            0 <= i < cond.1.len() ==> check_view_holds(flags, #[trigger] cond.1[i]),
        ConditionLogic::Any => exists|i: int|
            0 <= i < cond.1.len() && check_view_holds(flags, #[trigger] cond.1[i]),
    }
}

pub open spec fn check_holds(flags: Map<Seq<char>, Seq<char>>, c: ConditionCheck) -> bool {
    check_view_holds(flags, check_view(c))
}

pub open spec fn condition_holds(flags: Map<Seq<char>, Seq<char>>, cond: BranchCondition) -> bool {
    condition_view_holds(flags, condition_view(cond))
}

/// What a single check asks of the flags: `Equals` with a value holds
/// exactly when the flag is set to that value (without a value, when it is
/// set), so a flag set to another value fails it; `NotEquals` holds exactly
/// when `Equals` fails; `Exists` and `NotExists` ask whether the flag is set.
pub proof fn law_check_semantics(flags: Map<Seq<char>, Seq<char>>, key: Seq<char>, value: Option<Seq<char>>)
    ensures
        check_view_holds(flags, (key, ConditionOperator::Equals, value)) <==> match value {
            Some(v) => flags.contains_key(key) && flags[key] == v,
            None => flags.contains_key(key),
        },
        check_view_holds(flags, (key, ConditionOperator::NotEquals, value)) <==> !check_view_holds(
            flags,
            (key, ConditionOperator::Equals, value),
        ),
        check_view_holds(flags, (key, ConditionOperator::Exists, value)) <==> flags.contains_key(key),
        check_view_holds(flags, (key, ConditionOperator::NotExists, value)) <==> !flags.contains_key(key),
        (value matches Some(v) && flags.contains_key(key) && flags[key] != v) ==> !check_view_holds(
            flags,
            (key, ConditionOperator::Equals, value),
        ),
{
}

/// How checks combine: `All` holds exactly when every check holds (so with
/// no checks), `Any` exactly when at least one check holds (so never with no
/// checks). When some but not all checks hold, `Any` holds and `All` fails.
pub proof fn law_condition_logic(flags: Map<Seq<char>, Seq<char>>, checks: Seq<CheckView>)
    ensures
        condition_view_holds(flags, (ConditionLogic::All, checks)) <==> forall|i: int|
            0 <= i < checks.len() ==> check_view_holds(flags, #[trigger] checks[i]),
        condition_view_holds(flags, (ConditionLogic::Any, checks)) <==> exists|i: int|
            0 <= i < checks.len() && check_view_holds(flags, #[trigger] checks[i]),
        forall|i: int, j: int|
            0 <= i < checks.len() && 0 <= j < checks.len() && check_view_holds(flags, #[trigger] checks[i])
                && !check_view_holds(flags, #[trigger] checks[j]) ==> condition_view_holds(
                flags,
                (ConditionLogic::Any, checks),
            ) && !condition_view_holds(flags, (ConditionLogic::All, checks)),
        checks.len() == 0 ==> condition_view_holds(flags, (ConditionLogic::All, checks))
            && !condition_view_holds(flags, (ConditionLogic::Any, checks)),
{
    let any: ConditionView = (ConditionLogic::Any, checks);
    let all: ConditionView = (ConditionLogic::All, checks);
    assert(any.1 == checks && all.1 == checks);
    if exists|i: int| 0 <= i < checks.len() && check_view_holds(flags, #[trigger] checks[i]) {
        let i = choose|i: int| 0 <= i < checks.len() && check_view_holds(flags, #[trigger] checks[i]);
        assert(check_view_holds(flags, any.1[i]));
    }
    assert forall|i: int, j: int|
        0 <= i < checks.len() && 0 <= j < checks.len() && check_view_holds(flags, #[trigger] checks[i])
            && !check_view_holds(flags, #[trigger] checks[j]) implies condition_view_holds(flags, any)
        && !condition_view_holds(flags, all) by {
        assert(check_view_holds(flags, any.1[i]));
        assert(!check_view_holds(flags, all.1[j]));
    }
}

/// Whether the flag `key` is set and, when `value` is given, equal to it.
pub fn flag_is(flags: &StrMap<String>, key: &str, value: &Option<String>) -> (r: bool)
    ensures
        r == flag_matches(flag_view(flags.map()), key@, opt_view(*value)),
{
    match flags.get(key) {
        Some(current) => match value {
            Some(expected) => {
                let r = *current == *expected;
                r
            },
            None => true,
        },
        None => false,
    }
}

impl ConditionCheck {
    /// Whether this check holds against the flags.
    pub fn holds(&self, flags: &StrMap<String>) -> (r: bool)
        ensures
            r == check_holds(flag_view(flags.map()), *self),
    {
        match self.operator {
            ConditionOperator::Equals => flag_is(flags, self.key.as_str(), &self.value),
            ConditionOperator::NotEquals => !flag_is(flags, self.key.as_str(), &self.value),
            ConditionOperator::Exists => flags.contains_key(self.key.as_str()),
            ConditionOperator::NotExists => !flags.contains_key(self.key.as_str()),
        }
    }
}

impl BranchCondition {
    /// Evaluates the condition against the state flags.
    pub fn evaluate(&self, flags: &StrMap<String>) -> (r: bool)
        ensures
            r == condition_holds(flag_view(flags.map()), *self),
    {
        let ghost fv = flag_view(flags.map());
        let all = match self.logic {
            ConditionLogic::All => true,
            ConditionLogic::Any => false,
        };
        let mut i: usize = 0;
        while i < self.checks.len()
            invariant
                fv == flag_view(flags.map()),
                i <= self.checks@.len(),
                all == (self.logic == ConditionLogic::All),
                all ==> forall|j: int| 0 <= j < i ==> check_holds(fv, #[trigger] self.checks@[j]),
                !all ==> forall|j: int| 0 <= j < i ==> !check_holds(fv, #[trigger] self.checks@[j]),
            decreases self.checks@.len() - i,
        {
            let h = self.checks[i].holds(flags);
            assert(condition_view(*self).1[i as int] == check_view(self.checks@[i as int]));
            if all && !h {
                return false;
            }
            if !all && h {
                return true;
            }
            i = i + 1;
        }
        all
    }
}

impl ConditionCheck {
    pub fn copy(&self) -> (r: Self)
        ensures
            check_view(r) == check_view(*self),
    {
        ConditionCheck {
            key: self.key.clone(),
            operator: self.operator,
            value: match &self.value {
                Some(v) => Some(v.clone()),
                None => None,
            },
        }
    }
}

impl BranchCondition {
    pub fn copy(&self) -> (r: Self)
        ensures
            condition_view(r) == condition_view(*self),
    {
        let mut checks: Vec<ConditionCheck> = Vec::new();
        let mut i: usize = 0;
        while i < self.checks.len()
            invariant
                i <= self.checks@.len(),
                checks@.len() == i,
                forall|k: int| 0 <= k < i ==> check_view(#[trigger] checks@[k]) == check_view(self.checks@[k]),
            decreases self.checks@.len() - i,
        {
            checks.push(self.checks[i].copy());
            i = i + 1;
        }
        let r = BranchCondition { logic: self.logic, checks };
        assert(condition_view(r).1 =~= condition_view(*self).1);
        r
    }
}

} // verus!
