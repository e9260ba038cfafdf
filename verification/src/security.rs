//! Security levels of a communication channel and their ordering.
use vstd::prelude::*;

use core::cmp::Ordering;

verus! {

/// Security level flags for communication
#[derive(Debug, Clone, Copy, PartialEq, Eq, Structural)]
pub struct SecurityLevel {
    /// Whether authentication has been established
    authenticated: bool,
    /// Whether MAC protection is active
    mac_protection: bool,
    /// Whether full encryption is active (implies MAC protection)
    encrypted: bool,
}

/// Abstract value of a security level: its three flags.
pub struct LevelView {
    /// Authentication established
    pub authenticated: bool,
    /// MAC protection flag
    pub mac_protection: bool,
    /// Encryption flag
    pub encrypted: bool,
}

impl View for SecurityLevel {
    type V = LevelView;

    closed spec fn view(&self) -> LevelView {
        LevelView {
            authenticated: self.authenticated,
            mac_protection: self.mac_protection,
            encrypted: self.encrypted,
        }
    }
}

/// MAC protection is in force when it is flagged or when encryption is (encryption implies it).
pub open spec fn spec_has_mac(l: LevelView) -> bool {
    l.mac_protection || l.encrypted
}

/// `have` offers every property that `required` asks for.
pub open spec fn spec_satisfies(have: LevelView, required: LevelView) -> bool {
    &&& (required.authenticated ==> have.authenticated)
    &&& (required.mac_protection ==> spec_has_mac(have))
    &&& (required.encrypted ==> have.encrypted)
}

/// Numeric strength: authentication weighs 1, MAC protection 2, encryption 4.
pub open spec fn spec_strength(l: LevelView) -> int {
    (if l.authenticated { 1int } else { 0int }) + (if spec_has_mac(l) { 2int } else { 0int }) + (
    if l.encrypted { 4int } else { 0int })
}

/// Comparison of two levels by strength.
pub open spec fn compare_levels(a: LevelView, b: LevelView) -> Ordering {
    if spec_strength(a) < spec_strength(b) {
        Ordering::Less
    } else if spec_strength(a) == spec_strength(b) {
        Ordering::Equal
    } else {
        Ordering::Greater
    }
}

/// A level built from three flags
pub open spec fn level(a: bool, m: bool, e: bool) -> LevelView {
    LevelView { authenticated: a, mac_protection: m, encrypted: e }
}

/// A well-formed level: encryption comes with MAC protection
pub open spec fn level_wf(l: LevelView) -> bool {
    l.encrypted ==> l.mac_protection
}

impl SecurityLevel {
    /// Encryption implies MAC protection
    #[verifier::type_invariant]
    spec fn inv(self) -> bool {
        self.encrypted ==> self.mac_protection
    }

    /// No security (plain communication)
    pub fn none() -> (res: Self)
        ensures
            res@ == level(false, false, false),
    {
        SecurityLevel { authenticated: false, mac_protection: false, encrypted: false }
    }

    /// Authentication only
    pub fn authenticated() -> (res: Self)
        ensures
            res@ == level(true, false, false),
    {
        SecurityLevel { authenticated: true, mac_protection: false, encrypted: false }
    }

    /// Message Authentication Codes (data integrity) only
    pub fn mac_protected() -> (res: Self)
        ensures
            res@ == level(false, true, false),
    {
        SecurityLevel { authenticated: false, mac_protection: true, encrypted: false }
    }

    /// Authentication with MAC protection
    pub fn authenticated_mac() -> (res: Self)
        ensures
            res@ == level(true, true, false),
    {
        SecurityLevel { authenticated: true, mac_protection: true, encrypted: false }
    }

    /// Full encryption (automatically includes MAC protection)
    pub fn encrypted() -> (res: Self)
        ensures
            res@ == level(false, true, true),
    {
        SecurityLevel { authenticated: false, mac_protection: true, encrypted: true }
    }

    /// Full encryption with authentication
    pub fn authenticated_encrypted() -> (res: Self)
        ensures
            res@ == level(true, true, true),
    {
        SecurityLevel { authenticated: true, mac_protection: true, encrypted: true }
    }

    /// Full security - authentication, MAC protection, and encryption
    pub fn full_security() -> (res: Self)
        ensures
            res@ == level(true, true, true),
    {
        SecurityLevel { authenticated: true, mac_protection: true, encrypted: true }
    }

    /// Check if a security level satisfies required security properties
    pub fn satisfies(&self, required: &Self) -> (res: bool)
        ensures
            res == spec_satisfies(self@, required@),
    {
        (!required.authenticated || self.authenticated) && (!required.mac_protection
            || self.mac_protection || self.encrypted) && (!required.encrypted || self.encrypted)
    }

    /// Check if the security level is authenticated (such as a PIN verified)
    pub fn is_authenticated(&self) -> (res: bool)
        ensures
            res == self@.authenticated,
    {
        self.authenticated
    }

    /// Check if the security level has MAC protection
    pub fn has_mac_protection(&self) -> (res: bool)
        ensures
            res == spec_has_mac(self@),
    {
        self.mac_protection || self.encrypted
    }

    /// Check if the security level is encrypted
    pub fn is_encrypted(&self) -> (res: bool)
        ensures
            res == self@.encrypted,
    {
        self.encrypted
    }

    /// Check whether no property at all is in force
    pub fn is_none(&self) -> (res: bool)
        ensures
            res == (self@ == level(false, false, false)),
    {
        !self.authenticated && !self.mac_protection && !self.encrypted
    }

    /// Builder method to add authentication
    pub fn with_authentication(self) -> (res: Self)
        ensures
            res@ == level(true, self@.mac_protection, self@.encrypted),
    {
        proof { use_type_invariant(&self); }
        SecurityLevel { authenticated: true, ..self }
    }

    /// Builder method to add MAC protection
    pub fn with_mac_protection(self) -> (res: Self)
        ensures
            res@ == level(self@.authenticated, true, self@.encrypted),
    {
        SecurityLevel { mac_protection: true, ..self }
    }

    /// Builder method to add encryption (which implies MAC protection)
    pub fn with_encryption(self) -> (res: Self)
        ensures
            res@ == level(self@.authenticated, true, true),
    {
        SecurityLevel { mac_protection: true, encrypted: true, ..self }
    }

    /// Numeric security strength (authentication 1, MAC protection 2, encryption 4)
    pub fn strength(&self) -> (res: u8)
        ensures
            res == spec_strength(self@),
    {
        let a: u8 = if self.authenticated { 1 } else { 0 };
        let m: u8 = if self.mac_protection || self.encrypted { 2 } else { 0 };
        let e: u8 = if self.encrypted { 4 } else { 0 };
        a + m + e
    }

    /// Total order of security levels by strength; two levels compare equal exactly when
    /// they are the same level
    pub fn cmp(&self, other: &Self) -> (res: Ordering)
        ensures
            res == compare_levels(self@, other@),
            res == Ordering::Equal <==> self@ == other@,
    {
        proof {
            use_type_invariant(self);
            use_type_invariant(other);
            lemma_compare_equal(self@, other@);
        }
        let a = self.strength();
        let b = other.strength();
        if a < b {
            Ordering::Less
        } else if a == b {
            Ordering::Equal
        } else {
            Ordering::Greater
        }
    }

    /// Partial order of security levels (always defined)
    pub fn partial_cmp(&self, other: &Self) -> (res: Option<Ordering>)
        ensures
            res == Some(compare_levels(self@, other@)),
    {
        Some(self.cmp(other))
    }
}

/// The strongest of the given levels, or no security when there is none.
pub open spec fn spec_max_level(levels: Seq<LevelView>) -> LevelView
    decreases levels.len(),
{
    if levels.len() == 0 {
        level(false, false, false)
    } else {
        let rest = spec_max_level(levels.drop_last());
        if spec_strength(levels.last()) >= spec_strength(rest) && (levels.len() == 1
            || spec_strength(levels.last()) > spec_strength(rest)) {
            levels.last()
        } else {
            rest
        }
    }
}

/// The levels of a vector of security levels
pub open spec fn levels_view(v: Seq<SecurityLevel>) -> Seq<LevelView> {
    Seq::new(v.len(), |i: int| v[i]@)
}

/// The strongest level of a list (the first one of maximal strength), or none when it is empty
pub fn max_level(levels: &Vec<SecurityLevel>) -> (res: SecurityLevel)
    ensures
        res@ == spec_max_level(levels_view(levels@)),
        forall|i: int| 0 <= i < levels@.len() ==> spec_strength(levels@[i]@) <= spec_strength(res@),
{
    let mut best = SecurityLevel::none();
    let mut i: usize = 0;
    while i < levels.len()
        invariant
            i <= levels@.len(),
            best@ == spec_max_level(levels_view(levels@).subrange(0, i as int)),
            forall|j: int| 0 <= j < i ==> spec_strength(levels@[j]@) <= spec_strength(best@),
        decreases levels@.len() - i,
    {
        let l = levels[i];
        proof {
            let s = levels_view(levels@).subrange(0, i + 1);
            assert(s.drop_last() =~= levels_view(levels@).subrange(0, i as int));
            assert(s.last() == l@);
        }
        if i == 0 || l.strength() > best.strength() {
            best = l;
        }
        i = i + 1;
    }
    proof {
        assert(levels_view(levels@).subrange(0, levels@.len() as int) =~= levels_view(levels@));
    }
    best
}

/// `satisfies` is reflexive: every level satisfies itself.
pub proof fn lemma_satisfies_reflexive(a: LevelView)
    ensures
        spec_satisfies(a, a),
{
}

/// `satisfies` is transitive.
pub proof fn lemma_satisfies_transitive(a: LevelView, b: LevelView, c: LevelView)
    requires
        spec_satisfies(a, b),
        spec_satisfies(b, c),
    ensures
        spec_satisfies(a, c),
{
}

/// Full security satisfies every requirement, and every level satisfies "no security".
pub proof fn lemma_satisfies_bounds(a: LevelView)
    ensures
        spec_satisfies(level(true, true, true), a),
        spec_satisfies(a, level(false, false, false)),
{
}

/// Adding a property with a builder method never loses a property: the result satisfies the original.
pub proof fn lemma_builders_strengthen(a: LevelView)
    ensures
        spec_satisfies(level(true, a.mac_protection, a.encrypted), a),
        spec_satisfies(level(a.authenticated, true, a.encrypted), a),
        spec_satisfies(level(a.authenticated, true, true), a),
        spec_has_mac(level(a.authenticated, true, true)),
{
}

/// A level that satisfies another is at least as strong as it.
pub proof fn lemma_satisfies_implies_stronger(a: LevelView, b: LevelView)
    requires
        spec_satisfies(a, b),
    ensures
        spec_strength(b) <= spec_strength(a),
        compare_levels(a, b) != Ordering::Less,
{
}

/// The comparison is antisymmetric: swapping the arguments reverses the result.
pub proof fn lemma_compare_antisymmetric(a: LevelView, b: LevelView)
    ensures
        compare_levels(a, b) == Ordering::Less <==> compare_levels(b, a) == Ordering::Greater,
        compare_levels(a, b) == Ordering::Equal <==> compare_levels(b, a) == Ordering::Equal,
{
}

/// The comparison is transitive.
pub proof fn lemma_compare_transitive(a: LevelView, b: LevelView, c: LevelView)
    requires
        compare_levels(a, b) != Ordering::Greater,
        compare_levels(b, c) != Ordering::Greater,
    ensures
        compare_levels(a, c) != Ordering::Greater,
{
}

/// Among well-formed levels, two compare equal exactly when they are the same level.
pub proof fn lemma_compare_equal(a: LevelView, b: LevelView)
    requires
        level_wf(a),
        level_wf(b),
    ensures
        compare_levels(a, b) == Ordering::Equal <==> a == b,
{
}

/// Levels are ordered first by encryption, then by MAC protection, then by authentication:
/// an encrypted level is stronger than any unencrypted one; among levels alike in encryption,
/// MAC protection outweighs authentication; among levels alike in both, authentication makes
/// a level stronger.
pub proof fn lemma_strength_order(a: LevelView, b: LevelView)
    requires
        level_wf(a),
        level_wf(b),
    ensures
        !a.encrypted && b.encrypted ==> compare_levels(a, b) == Ordering::Less,
        a.encrypted == b.encrypted && !spec_has_mac(a) && spec_has_mac(b) ==> compare_levels(a, b) == Ordering::Less,
        a.encrypted == b.encrypted && spec_has_mac(a) == spec_has_mac(b) && !a.authenticated && b.authenticated
            ==> compare_levels(a, b) == Ordering::Less,
{
}

/// Adding a property with a builder adds its weight to the strength: authentication 1, MAC
/// protection 2, encryption (with the MAC protection it brings) 4 more.
pub proof fn lemma_builder_strength(l: LevelView)
    requires
        level_wf(l),
    ensures
        !l.authenticated ==> spec_strength(level(true, l.mac_protection, l.encrypted)) == spec_strength(l) + 1,
        !spec_has_mac(l) ==> spec_strength(level(l.authenticated, true, l.encrypted)) == spec_strength(l) + 2,
        spec_has_mac(l) && !l.encrypted ==> spec_strength(level(l.authenticated, true, true)) == spec_strength(l) + 4,
        spec_strength(level(false, false, false)) == 0,
{
}

impl Default for SecurityLevel {
    /// No security: not authenticated, no MAC protection, no encryption
    fn default() -> (res: Self)
        ensures
            res@ == level(false, false, false),
    {
        Self::none()
    }
}

} // verus!
