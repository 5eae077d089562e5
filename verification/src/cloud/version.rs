//! Version numbers, their order, and the size of an upgrade.

use super::text;
use vstd::prelude::*;

verus! {

/// A version number: three numbers and, on the beta channel, a pre-release tag.
pub struct Version {
    pub major: u64,
    pub minor: u64,
    pub patch: u64,
    pub pre: Option<Seq<char>>,
}

impl Version {
    /// Versions with a pre-release tag form the beta channel.
    pub open spec fn is_beta(self) -> bool {
        self.pre is Some
    }

    /// The three numbers are the same.
    pub open spec fn same_base(self, other: Version) -> bool {
        self.major == other.major && self.minor == other.minor && self.patch == other.patch
    }

    /// The three numbers of `self` come before those of `other`; the first that
    /// differs decides.
    pub open spec fn base_before(self, other: Version) -> bool {
        ||| self.major < other.major
        ||| self.major == other.major && self.minor < other.minor
        ||| self.major == other.major && self.minor == other.minor && self.patch < other.patch
    }

    /// `self` is of the same channel as `other` and strictly older. On equal
    /// numbers the pre-release tags decide, in the order of a dictionary.
    pub open spec fn older_than(self, other: Version) -> bool {
        &&& self.is_beta() == other.is_beta()
        &&& {
            ||| self.base_before(other)
            ||| self.same_base(other) && self.is_beta() && text::lex_less(self.pre->0, other.pre->0)
        }
    }
}

/// The `n`th of the dot-separated numbers of a version without its tag.
pub open spec fn base_number(base: Seq<char>, n: nat) -> Option<u64> {
    match text::nth_part(base, '.', n) {
        Some(part) => text::number_of(part),
        None => None,
    }
}

/// The version that `s` spells. What follows the first `-` is the pre-release
/// tag; before it stand at least three numbers with dots between them, and what
/// follows the third is ignored.
pub open spec fn version_of(s: Seq<char>) -> Option<Version> {
    let base = text::before(s, '-');
    let pre = if s.contains('-') {
        Some(text::after(s, '-'))
    } else {
        None
    };
    match (base_number(base, 0), base_number(base, 1), base_number(base, 2)) {
        (Some(major), Some(minor), Some(patch)) => Some(Version { major, minor, patch, pre }),
        _ => None,
    }
}

/// Both strings spell a version, and `latest` is strictly newer than `current`.
pub open spec fn newer(current: Seq<char>, latest: Seq<char>) -> bool {
    match (version_of(current), version_of(latest)) {
        (Some(c), Some(l)) => c.older_than(l),
        _ => false,
    }
}

/// As [`newer`], and the step is one of the minor or the major number.
pub open spec fn newer_minor(current: Seq<char>, latest: Seq<char>) -> bool {
    match (version_of(current), version_of(latest)) {
        (Some(c), Some(l)) => c.older_than(l) && (c.major != l.major || c.minor != l.minor),
        _ => false,
    }
}

/// The parts of a parsed version as a [`Version`].
pub open spec fn version_from(parts: (u64, u64, u64, Option<&str>)) -> Version {
    Version {
        major: parts.0,
        minor: parts.1,
        patch: parts.2,
        pre: match parts.3 {
            Some(tag) => Some(tag@),
            None => None,
        },
    }
}

/// Parses a version string into `(major, minor, patch, pre-release)`.
///
/// Handles optional pre-release suffixes (e.g. `"2.5.0-beta.1"`) by splitting
/// on the first `-`. Returns `None` when the base version is malformed.
pub fn parse_version(v: &str) -> (r: Option<(u64, u64, u64, Option<&str>)>)
    ensures
        match r {
            Some(parts) => version_of(v@) == Some(version_from(parts)),
            None => version_of(v@) is None,
        },
{
    let chars = text::to_chars(v);
    let n: usize = chars.len();
    let dash: usize = text::find_char(&chars, '-', 0, n);
    let ghost base = text::before(v@, '-');
    proof {
        assert(chars@.subrange(0, n as int) =~= v@);
        text::lemma_first_index_holds(v@, '-');
        assert(chars@.subrange(0, dash as int) =~= base);
    }
    let dot1: usize = text::find_char(&chars, '.', 0, dash);
    proof {
        text::lemma_first_index_holds(base, '.');
        assert(chars@.subrange(0, dot1 as int) =~= text::before(base, '.'));
    }
    let major = match text::parse_number(&chars, 0, dot1) {
        Some(x) => x,
        None => return None,
    };
    if dot1 == dash {
        return None;
    }
    let ghost rest1 = text::after(base, '.');
    let dot2: usize = text::find_char(&chars, '.', dot1 + 1, dash);
    proof {
        assert(chars@.subrange(dot1 + 1, dash as int) =~= rest1);
        text::lemma_first_index_holds(rest1, '.');
        assert(chars@.subrange(dot1 + 1, dot2 as int) =~= text::before(rest1, '.'));
        reveal_with_fuel(text::nth_part, 3);
    }
    let minor = match text::parse_number(&chars, dot1 + 1, dot2) {
        Some(x) => x,
        None => return None,
    };
    if dot2 == dash {
        return None;
    }
    let ghost rest2 = text::after(rest1, '.');
    let dot3: usize = text::find_char(&chars, '.', dot2 + 1, dash);
    proof {
        assert(chars@.subrange(dot2 + 1, dash as int) =~= rest2);
        text::lemma_first_index_holds(rest2, '.');
        assert(chars@.subrange(dot2 + 1, dot3 as int) =~= text::before(rest2, '.'));
    }
    let patch = match text::parse_number(&chars, dot2 + 1, dot3) {
        Some(x) => x,
        None => return None,
    };
    if dash == n {
        return Some((major, minor, patch, None));
    }
    assert(v@.subrange(dash + 1, n as int) =~= text::after(v@, '-'));
    Some((major, minor, patch, Some(v.substring_char(dash + 1, n))))
}

/// Whether `version` is a beta: its text holds a `-`.
pub fn is_beta(version: &str) -> (r: bool)
    ensures
        r == version@.contains('-'),
{
    text::has_char(version, '-')
}

/// Classification of an upgrade between two versions.
///
/// The variant drives the automatic maintenance performed on upgrade:
///
/// - [`BumpKind::Patch`] (`x.y.Z`): bug fixes only, so no reinstall and no reindex.
/// - [`BumpKind::Minor`] (`x.Y.0`): new tools, so a global agent reinstall.
/// - [`BumpKind::Major`] (`X.0.0`): schema changes, so a global reinstall and a
///   forced reindex of each project.
/// - [`BumpKind::NoBump`]: equal versions, downgrades, or a change of channel; only
///   the recorded version moves.
#[derive(Debug, Clone, Copy, PartialEq, Eq, Structural)]
pub enum BumpKind {
    /// No actionable change (equal, downgrade, or another channel).
    NoBump,
    /// Patch bump (`x.y.Z`): bug fixes only.
    Patch,
    /// Minor bump (`x.Y.0`): warrants a global reinstall.
    Minor,
    /// Major bump (`X.0.0`): warrants a reinstall and a forced reindex.
    Major,
}

/// The size of the upgrade from `old` to `new`. An `old` that spells no version
/// counts as a whole major version behind every `new` that does.
pub open spec fn bump_of(old: Seq<char>, new: Seq<char>) -> BumpKind {
    match (version_of(old), version_of(new)) {
        (Some(o), Some(n)) => if !o.older_than(n) {
            BumpKind::NoBump
        } else if o.major != n.major {
            BumpKind::Major
        } else if o.minor != n.minor {
            BumpKind::Minor
        } else {
            BumpKind::Patch
        },
        (None, Some(_)) => BumpKind::Major,
        (_, None) => BumpKind::NoBump,
    }
}

/// Classifies the upgrade from `old` to `new` as patch, minor, major, or none.
///
/// Uses the same order and channel handling as [`is_newer_version`]: beta and
/// stable are separate channels and never cross. A `new` version that is not
/// strictly newer than `old` yields [`BumpKind::NoBump`]. An empty or unparseable
/// `old` version is treated as a [`BumpKind::Major`] bump, on either channel, so
/// that projects without a recorded version are refreshed on first use. A `new`
/// version that does not parse yields [`BumpKind::NoBump`] whatever `old` is.
pub fn bump_kind(old: &str, new: &str) -> (r: BumpKind)
    ensures
        r == bump_of(old@, new@),
{
    let (new_major, new_minor) = match parse_version(new) {
        Some((major, minor, _, _)) => (major, minor),
        None => return BumpKind::NoBump,
    };
    let (old_major, old_minor) = match parse_version(old) {
        Some((major, minor, _, _)) => (major, minor),
        None => return BumpKind::Major,
    };
    if !is_newer_version(old, new) {
        BumpKind::NoBump
    } else if new_major != old_major {
        BumpKind::Major
    } else if new_minor != old_minor {
        BumpKind::Minor
    } else {
        BumpKind::Patch
    }
}

/// Returns true if `latest` is strictly newer than `current`.
///
/// Compares the base versions first, number by number, and then the pre-release
/// tags in the order of a dictionary. A beta is never newer than a stable
/// version, nor a stable version newer than a beta.
pub fn is_newer_version(current: &str, latest: &str) -> (r: bool)
    ensures
        r == newer(current@, latest@),
{
    match (parse_version(current), parse_version(latest)) {
        (Some((cm, cn, cp, cpre)), Some((lm, ln, lp, lpre))) => {
            if cpre.is_some() != lpre.is_some() {
                return false;
            }
            if lm != cm {
                return lm > cm;
            }
            if ln != cn {
                return ln > cn;
            }
            if lp != cp {
                return lp > cp;
            }
            match (cpre, lpre) {
                (Some(a), Some(b)) => text::text_less(a, b),
                _ => false,
            }
        },
        _ => false,
    }
}

/// Returns true if `latest` is a newer version than `current` and the
/// difference is at least a minor version bump (patch-only bumps return false).
pub fn is_newer_minor_version(current: &str, latest: &str) -> (r: bool)
    ensures
        r == newer_minor(current@, latest@),
{
    if !is_newer_version(current, latest) {
        return false;
    }
    match (parse_version(current), parse_version(latest)) {
        (Some((cm, cn, _, _)), Some((lm, ln, _, _))) => lm > cm || (lm == cm && ln > cn),
        _ => true,
    }
}

/// A tag behind the first `-` makes a version a pre-release of the same base. The
/// tag may hold anything, further dashes too, and a malformed base stays one.
pub proof fn law_first_dash_starts_the_tag(base: Seq<char>, tag: Seq<char>)
    requires
        !base.contains('-'),
    ensures
        version_of(base + seq!['-'] + tag) == match version_of(base) {
            Some(v) => Some(Version { pre: Some(tag), ..v }),
            None => None,
        },
{
    let whole = base + seq!['-'] + tag;
    let n = base.len() as int;
    assert forall|j: int| 0 <= j < n implies whole[j] != '-' by {
        assert(base.contains(base[j]));
    }
    text::lemma_first_index(whole, '-', n);
    assert(whole[n] == '-');
    assert forall|j: int| 0 <= j < n implies base[j] != '-' by {
        assert(base.contains(base[j]));
    }
    text::lemma_first_index(base, '-', n);
    assert(text::before(whole, '-') =~= base);
    assert(text::before(base, '-') =~= base);
    assert(text::after(whole, '-') =~= tag);
}

/// No version is newer than itself.
pub proof fn law_newer_is_strict(v: Seq<char>)
    ensures
        !newer(v, v),
{
    if let Some(x) = version_of(v) {
        if x.is_beta() {
            text::lemma_lex_less_irreflexive(x.pre->0);
        }
    }
}

/// Of two versions at most one is newer than the other.
pub proof fn law_newer_is_asymmetric(a: Seq<char>, b: Seq<char>)
    ensures
        !(newer(a, b) && newer(b, a)),
{
    if newer(a, b) && newer(b, a) {
        law_newer_is_transitive(a, b, a);
        law_newer_is_strict(a);
    }
}

/// What is newer than a newer version is newer.
pub proof fn law_newer_is_transitive(a: Seq<char>, b: Seq<char>, c: Seq<char>)
    requires
        newer(a, b),
        newer(b, c),
    ensures
        newer(a, c),
{
    let x = version_of(a)->0;
    let y = version_of(b)->0;
    let z = version_of(c)->0;
    if x.same_base(y) && y.same_base(z) {
        text::lemma_lex_less_transitive(x.pre->0, y.pre->0, z.pre->0);
    }
}

/// Within a channel any two version strings are comparable: one is newer than
/// the other, or they spell the same version.
pub proof fn law_newer_is_total_within_a_channel(a: Seq<char>, b: Seq<char>)
    requires
        version_of(a) is Some,
        version_of(b) is Some,
        version_of(a)->0.is_beta() == version_of(b)->0.is_beta(),
    ensures
        newer(a, b) || newer(b, a) || version_of(a) == version_of(b),
{
    let x = version_of(a)->0;
    let y = version_of(b)->0;
    if x.is_beta() {
        text::lemma_lex_less_total(x.pre->0, y.pre->0);
    }
}

/// Beta and stable are separate channels. A version is never newer than one of
/// the other channel, and an upgrade between two readable versions of different
/// channels calls for no maintenance. The channel is beta just where the text
/// holds a `-`, which is what [`is_beta`] tests.
pub proof fn law_channels_never_cross(a: Seq<char>, b: Seq<char>)
    requires
        a.contains('-') != b.contains('-'),
    ensures
        !newer(a, b),
        !newer_minor(a, b),
        version_of(a) is Some ==> bump_of(a, b) == BumpKind::NoBump,
{
}

/// A step that is at least a minor one is a step to a newer version.
pub proof fn law_newer_minor_is_newer(current: Seq<char>, latest: Seq<char>)
    ensures
        newer_minor(current, latest) ==> newer(current, latest),
{
}

/// A newer version that shares the major and the minor number is no minor step:
/// patch releases, and newer pre-releases of one base, are passed over.
pub proof fn law_patch_releases_are_not_minor(current: Seq<char>, latest: Seq<char>)
    requires
        version_of(current) is Some,
        version_of(latest) is Some,
        version_of(current)->0.major == version_of(latest)->0.major,
        version_of(current)->0.minor == version_of(latest)->0.minor,
    ensures
        !newer_minor(current, latest),
{
}

/// From a readable version there is something to do just where the new version
/// is newer, and more than a patch just where it is newer by a minor step. The
/// latter holds exactly where the major number, or on equal major numbers the
/// minor number, has grown.
pub proof fn law_bump_agrees_with_the_order(old_version: Seq<char>, new_version: Seq<char>)
    requires
        version_of(old_version) is Some,
    ensures
        bump_of(old_version, new_version) != BumpKind::NoBump <==> newer(old_version, new_version),
        newer_minor(old_version, new_version) <==> (bump_of(old_version, new_version) == BumpKind::Minor
            || bump_of(old_version, new_version) == BumpKind::Major),
        bump_of(old_version, new_version) == BumpKind::Major ==> version_of(old_version)->0.major < version_of(
            new_version,
        )->0.major,
        bump_of(old_version, new_version) == BumpKind::Minor ==> version_of(old_version)->0.major == version_of(
            new_version,
        )->0.major && version_of(old_version)->0.minor < version_of(new_version)->0.minor,
{
}

/// Equal versions and downgrades call for no maintenance.
pub proof fn law_no_bump_without_progress(old_version: Seq<char>, new_version: Seq<char>)
    requires
        version_of(old_version) is Some,
        version_of(new_version) == version_of(old_version) || newer(new_version, old_version),
    ensures
        bump_of(old_version, new_version) == BumpKind::NoBump,
{
    law_newer_is_asymmetric(old_version, new_version);
    law_newer_is_strict(old_version);
}

/// A project without a readable recorded version is fully refreshed by the
/// first version that runs on it, stable or beta. The empty record is such a one.
pub proof fn law_unreadable_record_is_refreshed(old_version: Seq<char>, new_version: Seq<char>)
    requires
        version_of(old_version) is None || old_version == Seq::<char>::empty(),
        version_of(new_version) is Some,
    ensures
        bump_of(old_version, new_version) == BumpKind::Major,
{
    if old_version == Seq::<char>::empty() {
        assert(text::before(old_version, '-') =~= old_version);
        assert(text::before(old_version, '.') =~= old_version);
        assert(base_number(old_version, 0) is None);
    }
}

/// Three numbers with dots between them are a version without a tag. Any of them
/// malformed, or fewer of them, are none, and what follows a third dot is
/// ignored.
pub proof fn law_three_numbers_make_a_version(a: Seq<char>, b: Seq<char>, c: Seq<char>, rest: Seq<char>)
    requires
        !a.contains('.') && !a.contains('-'),
        !b.contains('.') && !b.contains('-'),
        !c.contains('.') && !c.contains('-'),
        !rest.contains('-'),
    ensures
        ({
            let s = a + seq!['.'] + b + seq!['.'] + c;
            let (x, y, z) = (text::number_of(a), text::number_of(b), text::number_of(c));
            &&& x is Some && y is Some && z is Some ==> version_of(s) == Some(
                Version { major: x->0, minor: y->0, patch: z->0, pre: None },
            )
            &&& x is None || y is None || z is None ==> version_of(s) is None
            &&& version_of(s + seq!['.'] + rest) == version_of(s)
            &&& version_of(a + seq!['.'] + b) is None
            &&& version_of(a) is None
        }),
{
    let dot = seq!['.'];
    let s = a + dot + b + dot + c;
    let longer = s + dot + rest;
    let two = a + dot + b;
    lemma_no_tag(a);
    lemma_no_tag(two);
    lemma_no_tag(s);
    lemma_no_tag(longer);
    let bc = b + dot + c;
    let bcr = bc + dot + rest;
    let cr = c + dot + rest;
    assert(s =~= a + dot + bc);
    assert(longer =~= a + dot + bcr);
    assert(bcr =~= b + dot + cr);
    text::law_parts_follow_one_another(a, '.', bc, 0);
    text::law_parts_follow_one_another(a, '.', bc, 1);
    text::law_parts_follow_one_another(a, '.', bcr, 0);
    text::law_parts_follow_one_another(a, '.', bcr, 1);
    text::law_parts_follow_one_another(a, '.', b, 1);
    text::law_parts_follow_one_another(b, '.', c, 0);
    text::law_parts_follow_one_another(b, '.', cr, 0);
    text::law_parts_follow_one_another(c, '.', rest, 0);
}

/// A text without a `-` is its own base and has no tag.
proof fn lemma_no_tag(s: Seq<char>)
    requires
        !s.contains('-'),
    ensures
        text::before(s, '-') == s,
{
    text::law_first_separator_cuts_in_two(s, '-');
}

/// The parts of a parsed version stand for the version with these parts.
pub proof fn law_parsed_parts_keep_their_places(major: u64, minor: u64, patch: u64, tag: &str)
    ensures
        version_from((major, minor, patch, Some(tag))) == (Version { major, minor, patch, pre: Some(tag@) }),
        version_from((major, minor, patch, None)) == (Version { major, minor, patch, pre: None }),
{
}

/// Within a channel the first number that differs decides which version is
/// newer, as a number; where all three agree the tags of betas decide. What
/// spells no version is neither newer nor older than anything.
pub proof fn law_newer_goes_by_the_first_number_that_differs(a: Seq<char>, b: Seq<char>)
    ensures
        newer(a, b) ==> version_of(a) is Some && version_of(b) is Some,
        version_of(a) is Some && version_of(b) is Some ==> {
            let x = version_of(a)->0;
            let y = version_of(b)->0;
            &&& (x.pre is Some) != (y.pre is Some) ==> !newer(a, b)
            &&& (x.pre is Some) == (y.pre is Some) ==> {
                &&& x.major < y.major ==> newer(a, b)
                &&& x.major > y.major ==> !newer(a, b)
                &&& x.major == y.major && x.minor < y.minor ==> newer(a, b)
                &&& x.major == y.major && x.minor > y.minor ==> !newer(a, b)
                &&& x.major == y.major && x.minor == y.minor && x.patch < y.patch ==> newer(a, b)
                &&& x.major == y.major && x.minor == y.minor && x.patch > y.patch ==> !newer(a, b)
                &&& x.major == y.major && x.minor == y.minor && x.patch == y.patch ==> (newer(a, b) <==> x.pre
                    is Some && text::lex_less(x.pre->0, y.pre->0))
            }
        },
{
}

/// Growth of the major number, or of the minor number under an equal major one,
/// is a newer minor version within a channel, however large the step; nothing
/// else is.
pub proof fn law_newer_minor_is_growth_of_major_or_minor(a: Seq<char>, b: Seq<char>)
    ensures
        newer_minor(a, b) ==> version_of(a) is Some && version_of(b) is Some,
        version_of(a) is Some && version_of(b) is Some ==> {
            let x = version_of(a)->0;
            let y = version_of(b)->0;
            newer_minor(a, b) <==> (x.pre is Some) == (y.pre is Some) && (x.major < y.major || (x.major == y.major
                && x.minor < y.minor))
        },
{
}

/// Within a channel growth of the major number, however large, is a major bump;
/// of the minor number under an equal major one, a minor bump; of the patch
/// number, or of the tag, under equal numbers, a patch.
pub proof fn law_bump_names_the_number_that_grew(old_version: Seq<char>, new_version: Seq<char>)
    requires
        version_of(old_version) is Some,
        version_of(new_version) is Some,
        (version_of(old_version)->0.pre is Some) == (version_of(new_version)->0.pre is Some),
    ensures
        ({
            let o = version_of(old_version)->0;
            let n = version_of(new_version)->0;
            let bump = bump_of(old_version, new_version);
            &&& o.major < n.major ==> bump == BumpKind::Major
            &&& o.major == n.major && o.minor < n.minor ==> bump == BumpKind::Minor
            &&& o.major == n.major && o.minor == n.minor && o.patch < n.patch ==> bump == BumpKind::Patch
            &&& o.major == n.major && o.minor == n.minor && o.patch == n.patch && o.pre is Some && text::lex_less(
                o.pre->0,
                n.pre->0,
            ) ==> bump == BumpKind::Patch
            &&& o.major > n.major ==> bump == BumpKind::NoBump
            &&& o.major == n.major && o.minor > n.minor ==> bump == BumpKind::NoBump
            &&& o.major == n.major && o.minor == n.minor && o.patch > n.patch ==> bump == BumpKind::NoBump
        }),
{
}

/// An upgrade to what spells no version calls for nothing.
pub proof fn law_no_bump_to_an_unreadable_version(old_version: Seq<char>, new_version: Seq<char>)
    requires
        version_of(new_version) is None,
    ensures
        bump_of(old_version, new_version) == BumpKind::NoBump,
{
}

} // verus!
