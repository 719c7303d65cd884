//! Access control lists: IP-based filtering by CIDR rules.
//!
//! An ACL holds rules in ascending priority. The first rule whose CIDR
//! contains the address decides; the default policy decides when none does,
//! or when the ACL is disabled.

use vstd::prelude::*;
use vstd::string::*;
use crate::ip::{
    matches_ipv4_cidr, matches_ipv6_cidr, parse_ip, read_ip, v4_prefix_eq, v6_prefix_eq, IpAddress,
};
use crate::numeral::{parse_number, parse_unsigned};
use crate::text::{chars_of, scan_class, split, split_chars, str_eq, views, CharClass};

verus! {

/// ACL rule action.
#[derive(Debug, Clone, Copy, PartialEq, Eq, Structural)]
pub enum AclAction {
    /// Allow traffic from this IP/range
    Allow,
    /// Deny traffic from this IP/range
    Deny,
}

/// Why an address could not be checked.
#[derive(Debug, Clone, Copy, PartialEq, Eq, Structural)]
pub enum AclError {
    /// A rule without `/` does not hold an IP address.
    InvalidAddress,
    /// A rule holds more than one `/`.
    InvalidFormat,
    /// The part before `/` is not an IP address.
    InvalidNetwork,
    /// The part after `/` is not a number of at most 255.
    InvalidPrefix,
    /// The prefix is longer than the addresses of its family.
    PrefixTooLong,
    /// No ACL has the name asked for.
    NotFound,
}

impl AclError {
    /// A description of the error.
    pub fn message(&self) -> (s: String)
        ensures
            s@ == (match self {
                AclError::InvalidAddress => "Invalid IP address"@,
                AclError::InvalidFormat => "Invalid CIDR format"@,
                AclError::InvalidNetwork => "Invalid network address"@,
                AclError::InvalidPrefix => "Invalid prefix length"@,
                AclError::PrefixTooLong => "Prefix length exceeds the address length"@,
                AclError::NotFound => "ACL not found"@,
            }),
    {
        match self {
            AclError::InvalidAddress => "Invalid IP address".to_owned(),
            AclError::InvalidFormat => "Invalid CIDR format".to_owned(),
            AclError::InvalidNetwork => "Invalid network address".to_owned(),
            AclError::InvalidPrefix => "Invalid prefix length".to_owned(),
            AclError::PrefixTooLong => "Prefix length exceeds the address length".to_owned(),
            AclError::NotFound => "ACL not found".to_owned(),
        }
    }
}

// ---------------------------------------------------------------------------
// CIDR matching
// ---------------------------------------------------------------------------

/// Whether `ip` lies in `cidr`. A text without `/` is one address and
/// matches that address alone. `network/n` matches the addresses of the
/// network's family whose first `n` bits are those of the network; an
/// address of the other family never matches.
#[verifier::opaque]
pub open spec fn cidr_matches(ip: IpAddress, cidr: Seq<char>) -> Result<bool, AclError> {
    if !cidr.contains('/') {
        match parse_ip(cidr) {
            Some(target) => Ok(ip == target),
            None => Err(AclError::InvalidAddress),
        }
    } else {
        let parts = split(cidr, '/');
        if parts.len() != 2 {
            Err(AclError::InvalidFormat)
        } else {
            match parse_ip(parts[0]) {
                None => Err(AclError::InvalidNetwork),
                Some(network) => match parse_unsigned(parts[1], 255) {
                    None => Err(AclError::InvalidPrefix),
                    Some(n) => match (ip, network) {
                        (IpAddress::V4(a), IpAddress::V4(b)) => if n > 32 {
                            Err(AclError::PrefixTooLong)
                        } else {
                            Ok(v4_prefix_eq(a, b, n as u8))
                        },
                        (IpAddress::V6(a), IpAddress::V6(b)) => if n > 128 {
                            Err(AclError::PrefixTooLong)
                        } else {
                            Ok(v6_prefix_eq(a, b, n as u8))
                        },
                        _ => Ok(false),
                    },
                },
            }
        }
    }
}

/// Check if an IP address matches a CIDR range.
pub fn matches_cidr(ip: IpAddress, cidr: &str) -> (r: Result<bool, AclError>)
    ensures
        r == cidr_matches(ip, cidr@),
{
    reveal(cidr_matches);
    let v = chars_of(cidr);
    let slash = scan_class(&v, &CharClass::Except('/'), 0);
    if slash >= v.len() {
        assert(!v@.contains('/'));
        return match read_ip(&v) {
            Some(target) => Ok(ip == target),
            None => Err(AclError::InvalidAddress),
        };
    }
    assert(v@[slash as int] == '/');
    let parts = split_chars(&v, '/');
    if parts.len() != 2 {
        return Err(AclError::InvalidFormat);
    }
    assert(views(parts@)[0] == parts@[0]@);
    assert(views(parts@)[1] == parts@[1]@);
    let network = match read_ip(&parts[0]) {
        Some(n) => n,
        None => {
            return Err(AclError::InvalidNetwork);
        },
    };
    let prefix_len: u8 = match parse_number(&parts[1], 255) {
        Some(n) => n as u8,
        None => {
            return Err(AclError::InvalidPrefix);
        },
    };
    match (ip, network) {
        (IpAddress::V4(a), IpAddress::V4(b)) => {
            if prefix_len > 32 {
                Err(AclError::PrefixTooLong)
            } else {
                Ok(matches_ipv4_cidr(a, b, prefix_len))
            }
        },
        (IpAddress::V6(a), IpAddress::V6(b)) => {
            if prefix_len > 128 {
                Err(AclError::PrefixTooLong)
            } else {
                Ok(matches_ipv6_cidr(a, b, prefix_len))
            }
        },
        _ => Ok(false),
    }
}

// ---------------------------------------------------------------------------
// Rules
// ---------------------------------------------------------------------------

/// A single ACL rule.
#[derive(Debug, Clone)]
pub struct AclRule {
    /// Rule name/description
    pub name: String,
    /// IP address or CIDR range
    pub cidr: String,
    /// Action to take (allow/deny)
    pub action: AclAction,
    /// Priority (lower number = higher priority)
    pub priority: u32,
}

/// What a rule holds.
pub struct RuleView {
    pub name: Seq<char>,
    pub cidr: Seq<char>,
    pub action: AclAction,
    pub priority: u32,
}

impl View for AclRule {
    type V = RuleView;

    open spec fn view(&self) -> RuleView {
        RuleView { name: self.name@, cidr: self.cidr@, action: self.action, priority: self.priority }
    }
}

pub open spec fn rule_views(r: Seq<AclRule>) -> Seq<RuleView> {
    Seq::new(r.len(), |i: int| r[i]@)
}

/// Whether the rules stand in ascending priority.
pub open spec fn sorted(t: Seq<RuleView>) -> bool {
    forall|i: int, j: int| 0 <= i < j < t.len() ==> t[i].priority <= t[j].priority
}

/// Whether no two rules share a priority.
pub open spec fn distinct_priorities(t: Seq<RuleView>) -> bool {
    forall|i: int, j: int| 0 <= i < j < t.len() ==> t[i].priority != t[j].priority
}

/// The index at or after `from` of the first rule with a priority above `p`.
pub open spec fn insert_index(t: Seq<RuleView>, p: u32, from: int) -> int
    decreases t.len() - from,
{
    if 0 <= from < t.len() && t[from].priority <= p {
        insert_index(t, p, from + 1)
    } else {
        from
    }
}

/// `t` with `x` put behind the rules whose priority is not above its own.
pub open spec fn insert_rule(t: Seq<RuleView>, x: RuleView) -> Seq<RuleView> {
    t.insert(insert_index(t, x.priority, 0), x)
}

/// The rules in ascending priority, rules of equal priority in the order
/// they had.
pub open spec fn sort_rules(s: Seq<RuleView>) -> Seq<RuleView>
    decreases s.len(),
{
    if s.len() == 0 {
        Seq::empty()
    } else {
        insert_rule(sort_rules(s.drop_last()), s.last())
    }
}

/// The verdict of the first rule, in the order given, whose CIDR contains
/// `ip`; the default where none does; the error of a rule that cannot be
/// read, where one is reached.
pub open spec fn evaluate(rules: Seq<RuleView>, ip: IpAddress, default: AclAction) -> Result<
    bool,
    AclError,
>
    decreases rules.len(),
{
    if rules.len() == 0 {
        Ok(default == AclAction::Allow)
    } else {
        match cidr_matches(ip, rules[0].cidr) {
            Err(e) => Err(e),
            Ok(true) => Ok(rules[0].action == AclAction::Allow),
            Ok(false) => evaluate(rules.skip(1), ip, default),
        }
    }
}

pub proof fn lemma_insert_index(t: Seq<RuleView>, p: u32, from: int)
    requires
        0 <= from <= t.len(),
    ensures
        from <= insert_index(t, p, from) <= t.len(),
        forall|j: int| from <= j < insert_index(t, p, from) ==> t[j].priority <= p,
        insert_index(t, p, from) < t.len() ==> t[insert_index(t, p, from)].priority > p,
    decreases t.len() - from,
{
    if from < t.len() && t[from].priority <= p {
        lemma_insert_index(t, p, from + 1);
    }
}

pub proof fn lemma_insert_index_is(t: Seq<RuleView>, p: u32, from: int, r: int)
    requires
        0 <= from <= r <= t.len(),
        forall|j: int| from <= j < r ==> t[j].priority <= p,
        r < t.len() ==> t[r].priority > p,
    ensures
        insert_index(t, p, from) == r,
    decreases r - from,
{
    if from < r {
        lemma_insert_index_is(t, p, from + 1, r);
    }
}

/// Inserting into a sorted list keeps it sorted, and adds exactly the rule.
pub proof fn lemma_insert_rule(t: Seq<RuleView>, x: RuleView)
    requires
        sorted(t),
    ensures
        sorted(insert_rule(t, x)),
        insert_rule(t, x).len() == t.len() + 1,
        forall|y: RuleView| insert_rule(t, x).contains(y) <==> (t.contains(y) || y == x),
{
    let k = insert_index(t, x.priority, 0);
    lemma_insert_index(t, x.priority, 0);
    let r = insert_rule(t, x);
    assert forall|i: int, j: int| 0 <= i < j < r.len() implies r[i].priority <= r[j].priority by {
        if j < k {
        } else if j == k {
        } else {
            assert(r[j] == t[j - 1]);
            if i < k {
            } else if i == k {
                assert(t[k].priority > x.priority);
                assert(t[k].priority <= t[j - 1].priority || k == j - 1);
            } else {
                assert(r[i] == t[i - 1]);
            }
        }
    }
    assert forall|y: RuleView| r.contains(y) <==> (t.contains(y) || y == x) by {
        if r.contains(y) {
            let i = choose|i: int| 0 <= i < r.len() && r[i] == y;
            if i < k {
                assert(t[i] == y);
            } else if i == k {
            } else {
                assert(t[i - 1] == y);
            }
        }
        if t.contains(y) {
            let i = choose|i: int| 0 <= i < t.len() && t[i] == y;
            if i < k {
                assert(r[i] == y);
            } else {
                assert(r[i + 1] == y);
            }
        }
        if y == x {
            assert(r[k] == y);
        }
    }
}

/// Sorting gives a sorted list of the same rules.
pub proof fn lemma_sort_rules(s: Seq<RuleView>)
    ensures
        sorted(sort_rules(s)),
        sort_rules(s).len() == s.len(),
        forall|y: RuleView| sort_rules(s).contains(y) <==> s.contains(y),
    decreases s.len(),
{
    if s.len() > 0 {
        lemma_sort_rules(s.drop_last());
        lemma_insert_rule(sort_rules(s.drop_last()), s.last());
        assert forall|y: RuleView| sort_rules(s).contains(y) <==> s.contains(y) by {
            if s.contains(y) {
                let i = choose|i: int| 0 <= i < s.len() && s[i] == y;
                if i < s.len() - 1 {
                    assert(s.drop_last()[i] == y);
                }
            }
            if s.drop_last().contains(y) {
                let i = choose|i: int| 0 <= i < s.drop_last().len() && s.drop_last()[i] == y;
                assert(s[i] == y);
            }
            if y == s.last() {
                assert(s[s.len() - 1] == y);
            }
        }
    }
}

/// A sorted list is its own sorting.
pub proof fn lemma_sort_sorted(s: Seq<RuleView>)
    requires
        sorted(s),
    ensures
        sort_rules(s) == s,
    decreases s.len(),
{
    if s.len() > 0 {
        lemma_sort_sorted(s.drop_last());
        lemma_insert_index_is(s.drop_last(), s.last().priority, 0, s.len() - 1);
        assert(s.drop_last().insert(s.len() - 1, s.last()) =~= s);
    }
}

/// Two sorted lists of the same rules, each without a shared priority, are
/// the same list.
pub proof fn lemma_sorted_same_rules(a: Seq<RuleView>, b: Seq<RuleView>)
    requires
        sorted(a),
        sorted(b),
        distinct_priorities(a),
        distinct_priorities(b),
        forall|y: RuleView| a.contains(y) <==> b.contains(y),
    ensures
        a == b,
    decreases a.len(),
{
    if a.len() == 0 {
        if b.len() > 0 {
            assert(b.contains(b[0]));
            assert(a.contains(b[0]));
        }
        assert(a =~= b);
    } else {
        assert(a.contains(a[0]));
        assert(b.contains(a[0]));
        let ib = choose|i: int| 0 <= i < b.len() && b[i] == a[0];
        assert(b.contains(b[0]));
        assert(a.contains(b[0]));
        let ia = choose|i: int| 0 <= i < a.len() && a[i] == b[0];
        assert(a[0].priority <= a[ia].priority || ia == 0);
        assert(b[0].priority <= b[ib].priority || ib == 0);
        assert(ia == 0);
        assert(a[0] == b[0]);
        let a1 = a.skip(1);
        let b1 = b.skip(1);
        assert forall|y: RuleView| a1.contains(y) <==> b1.contains(y) by {
            if a1.contains(y) {
                let i = choose|i: int| 0 <= i < a1.len() && a1[i] == y;
                assert(a[i + 1] == y);
                assert(a.contains(y));
                let j = choose|j: int| 0 <= j < b.len() && b[j] == y;
                assert(j != 0);
                assert(b1[j - 1] == y);
            }
            if b1.contains(y) {
                let i = choose|i: int| 0 <= i < b1.len() && b1[i] == y;
                assert(b[i + 1] == y);
                assert(b.contains(y));
                let j = choose|j: int| 0 <= j < a.len() && a[j] == y;
                assert(j != 0);
                assert(a1[j - 1] == y);
            }
        }
        assert(sorted(a1)) by {
            assert forall|i: int, j: int| 0 <= i < j < a1.len() implies a1[i].priority
                <= a1[j].priority by {
                assert(a1[i] == a[i + 1] && a1[j] == a[j + 1]);
            }
        }
        assert(sorted(b1)) by {
            assert forall|i: int, j: int| 0 <= i < j < b1.len() implies b1[i].priority
                <= b1[j].priority by {
                assert(b1[i] == b[i + 1] && b1[j] == b[j + 1]);
            }
        }
        assert(distinct_priorities(a1)) by {
            assert forall|i: int, j: int| 0 <= i < j < a1.len() implies a1[i].priority
                != a1[j].priority by {
                assert(a1[i] == a[i + 1] && a1[j] == a[j + 1]);
            }
        }
        assert(distinct_priorities(b1)) by {
            assert forall|i: int, j: int| 0 <= i < j < b1.len() implies b1[i].priority
                != b1[j].priority by {
                assert(b1[i] == b[i + 1] && b1[j] == b[j + 1]);
            }
        }
        lemma_sorted_same_rules(a1, b1);
        assert(a =~= seq![a[0]] + a1);
        assert(b =~= seq![b[0]] + b1);
    }
}

/// Sorting keeps priorities distinct.
pub proof fn lemma_sort_distinct(s: Seq<RuleView>)
    requires
        distinct_priorities(s),
    ensures
        distinct_priorities(sort_rules(s)),
    decreases s.len(),
{
    if s.len() > 0 {
        let t = sort_rules(s.drop_last());
        let x = s.last();
        assert(distinct_priorities(s.drop_last())) by {
            assert forall|i: int, j: int| 0 <= i < j < s.drop_last().len() implies s.drop_last()[i].priority
                != s.drop_last()[j].priority by {
                assert(s.drop_last()[i] == s[i] && s.drop_last()[j] == s[j]);
            }
        }
        lemma_sort_distinct(s.drop_last());
        lemma_sort_rules(s.drop_last());
        let k = insert_index(t, x.priority, 0);
        lemma_insert_index(t, x.priority, 0);
        let r = insert_rule(t, x);
        assert forall|i: int| 0 <= i < t.len() implies t[i].priority != x.priority by {
            assert(t.contains(t[i]));
            assert(s.drop_last().contains(t[i]));
            let m = choose|m: int| 0 <= m < s.drop_last().len() && s.drop_last()[m] == t[i];
            assert(s[m] == t[i]);
            assert(s[m].priority != s[s.len() - 1].priority);
        }
        assert forall|i: int, j: int| 0 <= i < j < r.len() implies r[i].priority
            != r[j].priority by {
            if i < k {
                assert(r[i] == t[i]);
            } else if i > k {
                assert(r[i] == t[i - 1]);
            }
            if j < k {
                assert(r[j] == t[j]);
            } else if j > k {
                assert(r[j] == t[j - 1]);
            }
        }
    }
}

/// The order in which rules are given does not matter: two lists of the
/// same rules, each without a shared priority, sort to the same list, and so
/// decide every address alike.
pub proof fn lemma_rule_order_irrelevant(
    a: Seq<RuleView>,
    b: Seq<RuleView>,
    ip: IpAddress,
    default: AclAction,
)
    requires
        distinct_priorities(a),
        distinct_priorities(b),
        forall|y: RuleView| a.contains(y) <==> b.contains(y),
    ensures
        sort_rules(a) == sort_rules(b),
        evaluate(sort_rules(a), ip, default) == evaluate(sort_rules(b), ip, default),
{
    lemma_sort_rules(a);
    lemma_sort_rules(b);
    lemma_sort_distinct(a);
    lemma_sort_distinct(b);
    assert forall|y: RuleView| sort_rules(a).contains(y) <==> sort_rules(b).contains(y) by {
        assert(sort_rules(a).contains(y) <==> a.contains(y));
        assert(sort_rules(b).contains(y) <==> b.contains(y));
    }
    lemma_sorted_same_rules(sort_rules(a), sort_rules(b));
}

// ---------------------------------------------------------------------------
// Lists
// ---------------------------------------------------------------------------

/// Access Control List containing multiple rules.
#[derive(Debug, Clone)]
pub struct Acl {
    /// ACL name
    pub name: String,
    /// Description
    pub description: Option<String>,
    /// Default policy when no rules match
    pub default_policy: AclAction,
    /// List of rules (evaluated in priority order)
    pub rules: Vec<AclRule>,
    /// Whether this ACL is enabled
    pub enabled: bool,
}

/// What an ACL holds.
pub struct AclView {
    pub name: Seq<char>,
    pub description: Option<Seq<char>>,
    pub default_policy: AclAction,
    pub rules: Seq<RuleView>,
    pub enabled: bool,
}

impl View for Acl {
    type V = AclView;

    open spec fn view(&self) -> AclView {
        AclView {
            name: self.name@,
            description: match self.description {
                Some(d) => Some(d@),
                None => None,
            },
            default_policy: self.default_policy,
            rules: rule_views(self.rules@),
            enabled: self.enabled,
        }
    }
}

/// Whether `ip` is allowed: by the default policy when the ACL is disabled,
/// else by its rules in their order.
pub open spec fn acl_allows(acl: AclView, ip: IpAddress) -> Result<bool, AclError> {
    if !acl.enabled {
        Ok(acl.default_policy == AclAction::Allow)
    } else {
        evaluate(acl.rules, ip, acl.default_policy)
    }
}

impl Acl {
    /// Create a new ACL with default deny policy.
    pub fn new(name: &str) -> (r: Self)
        ensures
            r@ == (AclView {
                name: name@,
                description: None,
                default_policy: AclAction::Deny,
                rules: Seq::empty(),
                enabled: true,
            }),
    {
        let r = Acl {
            name: name.to_owned(),
            description: None,
            default_policy: AclAction::Deny,
            rules: Vec::new(),
            enabled: true,
        };
        assert(rule_views(r.rules@) =~= Seq::empty());
        r
    }

    /// Add a rule to this ACL and put the rules in ascending priority; rules
    /// of equal priority keep the order in which they stood.
    pub fn add_rule(&mut self, rule: AclRule)
        ensures
            final(self)@.rules == sort_rules(old(self)@.rules.push(rule@)),
            final(self).name == old(self).name,
            final(self).description == old(self).description,
            final(self).default_policy == old(self).default_policy,
            final(self).enabled == old(self).enabled,
    {
        let mut rest: Vec<AclRule> = Vec::new();
        core::mem::swap(&mut rest, &mut self.rules);
        rest.push(rule);
        let ghost all = rule_views(rest@);
        assert(all =~= old(self)@.rules.push(rule@));
        let mut done: Vec<AclRule> = Vec::new();
        let ghost mut k: int = 0;
        assert(all.take(0) =~= Seq::empty());
        assert(rule_views(done@) =~= Seq::empty());
        while rest.len() > 0
            invariant
                0 <= k <= all.len(),
                rule_views(rest@) == all.skip(k),
                rule_views(done@) == sort_rules(all.take(k)),
            decreases rest.len(),
        {
            let ghost rest_before = rule_views(rest@);
            assert(rest_before.len() == rest.len());
            assert(k < all.len());
            assert(rest_before[0] == all[k]);
            assert(rest_before[0] == rest@[0]@);
            let x = rest.remove(0);
            assert(x@ == all[k]);
            assert(rule_views(rest@) =~= all.skip(k + 1)) by {
                assert forall|j: int| 0 <= j < rest@.len() implies rule_views(rest@)[j] == all.skip(
                    k + 1,
                )[j] by {
                    assert(rule_views(rest@)[j] == rest_before[j + 1]);
                }
            }
            let mut i: usize = 0;
            let ghost t = rule_views(done@);
            while i < done.len() && done[i].priority <= x.priority
                invariant
                    i <= done.len(),
                    t == rule_views(done@),
                    forall|j: int| 0 <= j < i ==> t[j].priority <= x.priority,
                decreases done.len() - i,
            {
                i += 1;
            }
            proof {
                lemma_insert_index_is(t, x.priority, 0, i as int);
                assert(all.take(k + 1).drop_last() =~= all.take(k));
                assert(all.take(k + 1).last() == all[k]);
            }
            done.insert(i, x);
            assert(rule_views(done@) =~= t.insert(i as int, x@));
            proof {
                k = k + 1;
            }
        }
        assert(all.take(all.len() as int) =~= all);
        self.rules = done;
    }

    /// Check if an IP address is allowed by this ACL.
    pub fn is_allowed(&self, ip: IpAddress) -> (r: Result<bool, AclError>)
        ensures
            r == acl_allows(self@, ip),
    {
        if !self.enabled {
            return Ok(matches!(self.default_policy, AclAction::Allow));
        }
        let ghost rules = rule_views(self.rules@);
        let mut i: usize = 0;
        assert(rules.skip(0) =~= rules);
        while i < self.rules.len()
            invariant
                i <= self.rules.len(),
                self.enabled,
                rules == rule_views(self.rules@),
                evaluate(rules, ip, self.default_policy) == evaluate(
                    rules.skip(i as int),
                    ip,
                    self.default_policy,
                ),
            decreases self.rules.len() - i,
        {
            assert(rules.skip(i as int)[0] == self.rules@[i as int]@);
            assert(rules.skip(i as int).skip(1) =~= rules.skip(i + 1));
            match matches_cidr(ip, self.rules[i].cidr.as_str()) {
                Err(e) => {
                    return Err(e);
                },
                Ok(true) => {
                    return Ok(matches!(self.rules[i].action, AclAction::Allow));
                },
                Ok(false) => {},
            }
            i += 1;
        }
        Ok(matches!(self.default_policy, AclAction::Allow))
    }
}

// ---------------------------------------------------------------------------
// Manager
// ---------------------------------------------------------------------------

/// Collection of ACLs.
#[derive(Debug, Clone)]
pub struct AclManager {
    /// The ACLs, each under a name of its own
    pub acls: Vec<Acl>,
}

pub open spec fn acl_views(a: Seq<Acl>) -> Seq<AclView> {
    Seq::new(a.len(), |i: int| a[i]@)
}

impl View for AclManager {
    type V = Seq<AclView>;

    open spec fn view(&self) -> Seq<AclView> {
        acl_views(self.acls@)
    }
}

/// The ACLs of `s` that are not named `name`, in their order.
pub open spec fn without_name(s: Seq<AclView>, name: Seq<char>) -> Seq<AclView>
    decreases s.len(),
{
    if s.len() == 0 {
        Seq::empty()
    } else if s.last().name == name {
        without_name(s.drop_last(), name)
    } else {
        without_name(s.drop_last(), name).push(s.last())
    }
}

/// The index at or after `from` of the first ACL named `name`, or the
/// length of `s`.
pub open spec fn index_of_name(s: Seq<AclView>, name: Seq<char>, from: int) -> int
    decreases s.len() - from,
{
    if 0 <= from < s.len() && s[from].name != name {
        index_of_name(s, name, from + 1)
    } else {
        from
    }
}

/// The ACL named `name`: the first one, where several have the name.
pub open spec fn named(s: Seq<AclView>, name: Seq<char>) -> Option<AclView> {
    let i = index_of_name(s, name, 0);
    if 0 <= i < s.len() {
        Some(s[i])
    } else {
        None
    }
}

/// Whether the ACL named `name` allows `ip`.
pub open spec fn manager_allows(s: Seq<AclView>, name: Seq<char>, ip: IpAddress) -> Result<
    bool,
    AclError,
> {
    match named(s, name) {
        Some(acl) => acl_allows(acl, ip),
        None => Err(AclError::NotFound),
    }
}

pub proof fn lemma_index_of_name_is(s: Seq<AclView>, name: Seq<char>, from: int, r: int)
    requires
        0 <= from <= r <= s.len(),
        forall|j: int| from <= j < r ==> s[j].name != name,
        r < s.len() ==> s[r].name == name,
    ensures
        index_of_name(s, name, from) == r,
    decreases r - from,
{
    if from < r {
        lemma_index_of_name_is(s, name, from + 1, r);
    }
}

/// Nothing is dropped where no ACL has the name.
pub proof fn lemma_without_absent(s: Seq<AclView>, name: Seq<char>)
    requires
        forall|j: int| 0 <= j < s.len() ==> s[j].name != name,
    ensures
        without_name(s, name) == s,
    decreases s.len(),
{
    if s.len() > 0 {
        lemma_without_absent(s.drop_last(), name);
        assert(s.drop_last().push(s.last()) =~= s);
    }
}

fn drop_named(acls: &mut Vec<Acl>, name: &str)
    ensures
        acl_views(final(acls)@) == without_name(acl_views(old(acls)@), name@),
{
    let mut rest: Vec<Acl> = Vec::new();
    core::mem::swap(&mut rest, acls);
    let ghost all = acl_views(rest@);
    let ghost mut k: int = 0;
    assert(all.take(0) =~= Seq::empty());
    assert(acl_views(acls@) =~= Seq::empty());
    while rest.len() > 0
        invariant
            0 <= k <= all.len(),
            acl_views(rest@) == all.skip(k),
            acl_views(acls@) == without_name(all.take(k), name@),
        decreases rest.len(),
    {
        let ghost rest_before = acl_views(rest@);
        assert(rest_before.len() == rest.len());
        assert(k < all.len());
        assert(rest_before[0] == all[k]);
        assert(rest_before[0] == rest@[0]@);
        let x = rest.remove(0);
        assert(x@ == all[k]);
        assert(acl_views(rest@) =~= all.skip(k + 1)) by {
            assert forall|j: int| 0 <= j < rest@.len() implies acl_views(rest@)[j] == all.skip(
                k + 1,
            )[j] by {
                assert(acl_views(rest@)[j] == rest_before[j + 1]);
            }
        }
        proof {
            assert(all.take(k + 1).drop_last() =~= all.take(k));
            assert(all.take(k + 1).last() == all[k]);
        }
        if !str_eq(x.name.as_str(), name) {
            let ghost kept = acl_views(acls@);
            acls.push(x);
            assert(acl_views(acls@) =~= kept.push(x@));
        }
        proof {
            k = k + 1;
        }
    }
    assert(all.take(all.len() as int) =~= all);
}

impl AclManager {
    /// Create a new ACL manager.
    pub fn new() -> (r: Self)
        ensures
            r@ == Seq::<AclView>::empty(),
    {
        let r = AclManager { acls: Vec::new() };
        assert(acl_views(r.acls@) =~= Seq::empty());
        r
    }

    /// Add an ACL to the manager, in place of any that has its name.
    pub fn add_acl(&mut self, acl: Acl)
        ensures
            final(self)@ == without_name(old(self)@, acl@.name).push(acl@),
    {
        drop_named(&mut self.acls, acl.name.as_str());
        let ghost kept = acl_views(self.acls@);
        self.acls.push(acl);
        assert(acl_views(self.acls@) =~= kept.push(acl@));
    }

    /// Get an ACL by name.
    pub fn get_acl(&self, name: &str) -> (r: Option<&Acl>)
        ensures
            match r {
                Some(a) => named(self@, name@) == Some(a@),
                None => named(self@, name@) is None,
            },
    {
        let mut i: usize = 0;
        while i < self.acls.len()
            invariant
                i <= self.acls.len(),
                forall|j: int| 0 <= j < i ==> (#[trigger] self@[j]).name != name@,
            decreases self.acls.len() - i,
        {
            if str_eq(self.acls[i].name.as_str(), name) {
                proof {
                    assert(self@[i as int] == self.acls@[i as int]@);
                    lemma_index_of_name_is(self@, name@, 0, i as int);
                }
                return Some(&self.acls[i]);
            }
            assert(self@[i as int] == self.acls@[i as int]@);
            i += 1;
        }
        proof {
            lemma_index_of_name_is(self@, name@, 0, i as int);
        }
        None
    }

    /// Check if an IP is allowed by a specific ACL.
    pub fn is_allowed(&self, acl_name: &str, ip: IpAddress) -> (r: Result<bool, AclError>)
        ensures
            r == manager_allows(self@, acl_name@, ip),
    {
        match self.get_acl(acl_name) {
            Some(acl) => acl.is_allowed(ip),
            None => Err(AclError::NotFound),
        }
    }

    /// Remove an ACL by name; tells whether there was one.
    pub fn remove_acl(&mut self, name: &str) -> (r: bool)
        ensures
            final(self)@ == without_name(old(self)@, name@),
            r == named(old(self)@, name@).is_some(),
    {
        let found = self.get_acl(name).is_some();
        drop_named(&mut self.acls, name);
        found
    }

    /// List all ACL names.
    pub fn list_acls(&self) -> (r: Vec<String>)
        ensures
            r@.len() == self@.len(),
            forall|i: int| 0 <= i < r@.len() ==> (#[trigger] r@[i])@ == self@[i].name,
    {
        let mut out: Vec<String> = Vec::new();
        let mut i: usize = 0;
        while i < self.acls.len()
            invariant
                i <= self.acls.len(),
                out@.len() == i,
                forall|j: int| 0 <= j < i ==> (#[trigger] out@[j])@ == self@[j].name,
            decreases self.acls.len() - i,
        {
            out.push(self.acls[i].name.clone());
            assert(self@[i as int] == self.acls@[i as int]@);
            i += 1;
        }
        out
    }
}

impl Default for AclManager {
    fn default() -> (r: Self)
        ensures
            r@ == Seq::<AclView>::empty(),
    {
        AclManager::new()
    }
}

// ---------------------------------------------------------------------------
// Built-in lists
// ---------------------------------------------------------------------------

/// A rule that allows `cidr`.
pub open spec fn allow_rule(name: Seq<char>, cidr: Seq<char>, priority: u32) -> RuleView {
    RuleView { name, cidr, action: AclAction::Allow, priority }
}

/// The built-in ACLs: `rfc1918` for the private IPv4 networks, `localhost`
/// for the loopback addresses, and `allow_all`, which is disabled.
pub open spec fn default_acls() -> Seq<AclView> {
    seq![
        AclView {
            name: "rfc1918"@,
            description: Some("RFC 1918 private address space"@),
            default_policy: AclAction::Deny,
            rules: seq![
                allow_rule("10.0.0.0/8"@, "10.0.0.0/8"@, 10),
                allow_rule("172.16.0.0/12"@, "172.16.0.0/12"@, 20),
                allow_rule("192.168.0.0/16"@, "192.168.0.0/16"@, 30),
            ],
            enabled: true,
        },
        AclView {
            name: "localhost"@,
            description: Some("Allow localhost traffic"@),
            default_policy: AclAction::Deny,
            rules: seq![
                allow_rule("127.0.0.0/8"@, "127.0.0.0/8"@, 10),
                allow_rule("::1"@, "::1/128"@, 20),
            ],
            enabled: true,
        },
        AclView {
            name: "allow_all"@,
            description: Some("Allow all traffic (use with caution)"@),
            default_policy: AclAction::Allow,
            rules: Seq::empty(),
            enabled: false,
        },
    ]
}

fn allow(name: &str, cidr: &str, priority: u32) -> (r: AclRule)
    ensures
        r@ == allow_rule(name@, cidr@, priority),
{
    AclRule { name: name.to_owned(), cidr: cidr.to_owned(), action: AclAction::Allow, priority }
}

/// Create the built-in ACLs.
pub fn create_default_acls() -> (manager: AclManager)
    ensures
        manager@ == default_acls(),
{
    let mut manager = AclManager::new();

    let mut rfc1918 = Acl::new("rfc1918");
    rfc1918.description = Some("RFC 1918 private address space".to_owned());
    rfc1918.default_policy = AclAction::Deny;
    rfc1918.add_rule(allow("10.0.0.0/8", "10.0.0.0/8", 10));
    rfc1918.add_rule(allow("172.16.0.0/12", "172.16.0.0/12", 20));
    rfc1918.add_rule(allow("192.168.0.0/16", "192.168.0.0/16", 30));
    proof {
        let r1 = allow_rule("10.0.0.0/8"@, "10.0.0.0/8"@, 10);
        let r2 = allow_rule("172.16.0.0/12"@, "172.16.0.0/12"@, 20);
        let r3 = allow_rule("192.168.0.0/16"@, "192.168.0.0/16"@, 30);
        assert(Seq::<RuleView>::empty().push(r1) =~= seq![r1]);
        lemma_sort_sorted(seq![r1]);
        assert(seq![r1].push(r2) =~= seq![r1, r2]);
        lemma_sort_sorted(seq![r1, r2]);
        assert(seq![r1, r2].push(r3) =~= seq![r1, r2, r3]);
        lemma_sort_sorted(seq![r1, r2, r3]);
    }
    manager.add_acl(rfc1918);

    let mut localhost = Acl::new("localhost");
    localhost.description = Some("Allow localhost traffic".to_owned());
    localhost.default_policy = AclAction::Deny;
    localhost.add_rule(allow("127.0.0.0/8", "127.0.0.0/8", 10));
    localhost.add_rule(allow("::1", "::1/128", 20));
    proof {
        let r1 = allow_rule("127.0.0.0/8"@, "127.0.0.0/8"@, 10);
        let r2 = allow_rule("::1"@, "::1/128"@, 20);
        assert(Seq::<RuleView>::empty().push(r1) =~= seq![r1]);
        lemma_sort_sorted(seq![r1]);
        assert(seq![r1].push(r2) =~= seq![r1, r2]);
        lemma_sort_sorted(seq![r1, r2]);
    }
    manager.add_acl(localhost);

    let mut allow_all = Acl::new("allow_all");
    allow_all.description = Some("Allow all traffic (use with caution)".to_owned());
    allow_all.default_policy = AclAction::Allow;
    allow_all.enabled = false;
    manager.add_acl(allow_all);

    proof {
        reveal_strlit("rfc1918");
        reveal_strlit("localhost");
        reveal_strlit("allow_all");
        let d = default_acls();
        assert("rfc1918"@ != "localhost"@) by {
            assert("rfc1918"@.len() == 7 && "localhost"@.len() == 9);
        }
        assert("rfc1918"@ != "allow_all"@) by {
            assert("rfc1918"@.len() == 7 && "allow_all"@.len() == 9);
        }
        assert("localhost"@ != "allow_all"@) by {
            assert("localhost"@[0] != "allow_all"@[0]);
        }
        lemma_without_absent(Seq::<AclView>::empty(), "rfc1918"@);
        assert(Seq::<AclView>::empty().push(d[0]) =~= seq![d[0]]);
        lemma_without_absent(seq![d[0]], "localhost"@);
        assert(seq![d[0]].push(d[1]) =~= seq![d[0], d[1]]);
        lemma_without_absent(seq![d[0], d[1]], "allow_all"@);
        assert(seq![d[0], d[1]].push(d[2]) =~= d);
    }
    manager
}

} // verus!
