//! Finding the newest installed `OpenAI.Codex` package: reading package
//! directory names, ordering versions, and picking the newest candidate.
use vstd::prelude::*;

use crate::decimal::{parse_u64, parse_u64_range};
use crate::text::{chars_of, has_prefix, split_bounds, split_on, starts_with, sub_chars, text_equals};

verus! {

pub const PACKAGE_PREFIX: &'static str = "OpenAI.Codex_";

/// The version and architecture that a package directory name such as
/// `OpenAI.Codex_26.810.7004.0_x64__2p2nqsd0c76g0` names: after the prefix,
/// the first `_`-separated field is the version, whose `.`-separated
/// components must all be `u64` numerals, and the second is the architecture.
pub open spec fn package_directory(name: Seq<char>) -> Option<(Seq<u64>, Seq<char>)> {
    if !starts_with(name, PACKAGE_PREFIX@) {
        None
    } else {
        let fields = split_on(name.skip(PACKAGE_PREFIX@.len() as int), '_');
        let components = split_on(fields[0], '.');
        if (forall|k: int| 0 <= k < components.len() ==> (#[trigger] parse_u64(components[k])) is Some)
            && fields.len() >= 2 {
            Some((Seq::new(components.len(), |k: int| parse_u64(components[k])->0), fields[1]))
        } else {
            None
        }
    }
}

/// The first component of a version, a missing one counting as zero.
pub open spec fn head_or_zero(v: Seq<u64>) -> u64 {
    if v.len() > 0 {
        v[0]
    } else {
        0
    }
}

pub open spec fn tail_or_empty(v: Seq<u64>) -> Seq<u64> {
    if v.len() > 0 {
        v.drop_first()
    } else {
        v
    }
}

/// Versions compared component by component, missing components counting
/// as zero: -1 when `a` is older, 1 when it is newer, 0 when they are equal.
pub open spec fn version_order(a: Seq<u64>, b: Seq<u64>) -> int
    decreases a.len() + b.len(),
{
    if a.len() == 0 && b.len() == 0 {
        0
    } else if head_or_zero(a) < head_or_zero(b) {
        -1
    } else if head_or_zero(a) > head_or_zero(b) {
        1
    } else {
        version_order(tail_or_empty(a), tail_or_empty(b))
    }
}

/// The versions from component `i` on.
pub open spec fn components_from(v: Seq<u64>, i: int) -> Seq<u64> {
    if i <= v.len() {
        v.skip(i)
    } else {
        Seq::<u64>::empty()
    }
}

pub proof fn lemma_version_order_range(a: Seq<u64>, b: Seq<u64>)
    ensures
        -1 <= version_order(a, b) <= 1,
    decreases a.len() + b.len(),
{
    if !(a.len() == 0 && b.len() == 0) && head_or_zero(a) == head_or_zero(b) {
        lemma_version_order_range(tail_or_empty(a), tail_or_empty(b));
    }
}

/// Every version is equal to itself.
pub proof fn lemma_version_order_reflexive(a: Seq<u64>)
    ensures
        version_order(a, a) == 0,
    decreases a.len(),
{
    if a.len() > 0 {
        lemma_version_order_reflexive(a.drop_first());
    }
}

/// Comparing the other way round gives the opposite answer.
pub proof fn lemma_version_order_antisymmetric(a: Seq<u64>, b: Seq<u64>)
    ensures
        version_order(a, b) == -version_order(b, a),
    decreases a.len() + b.len(),
{
    if !(a.len() == 0 && b.len() == 0) && head_or_zero(a) == head_or_zero(b) {
        lemma_version_order_antisymmetric(tail_or_empty(a), tail_or_empty(b));
    }
}

/// Version order is transitive, and strictly so when either step is strict.
pub proof fn lemma_version_order_transitive(a: Seq<u64>, b: Seq<u64>, c: Seq<u64>)
    requires
        version_order(a, b) <= 0,
        version_order(b, c) <= 0,
    ensures
        version_order(a, c) <= 0,
        (version_order(a, b) < 0 || version_order(b, c) < 0) ==> version_order(a, c) < 0,
    decreases a.len() + b.len() + c.len(),
{
    if a.len() == 0 && b.len() == 0 && c.len() == 0 {
    } else if head_or_zero(a) == head_or_zero(b) && head_or_zero(b) == head_or_zero(c) {
        let (ta, tb, tc) = (tail_or_empty(a), tail_or_empty(b), tail_or_empty(c));
        if a.len() == 0 && b.len() == 0 {
            lemma_version_order_reflexive(ta);
        }
        if b.len() == 0 && c.len() == 0 {
            lemma_version_order_reflexive(tb);
        }
        lemma_version_order_transitive(ta, tb, tc);
    }
}

/// Trailing zero components do not change a version: `26.810.7004` and
/// `26.810.7004.0` are the same version.
pub proof fn lemma_version_order_trailing_zero(a: Seq<u64>)
    ensures
        version_order(a.push(0), a) == 0,
    decreases a.len(),
{
    if a.len() == 0 {
        assert(a.push(0) =~= seq![0u64]);
        assert(tail_or_empty(seq![0u64]) =~= Seq::<u64>::empty());
        assert(tail_or_empty(a) =~= Seq::<u64>::empty());
        assert(version_order(Seq::<u64>::empty(), Seq::<u64>::empty()) == 0);
        assert(version_order(seq![0u64], a) == version_order(
            tail_or_empty(seq![0u64]),
            tail_or_empty(a),
        ));
    } else {
        assert(a.push(0).drop_first() =~= a.drop_first().push(0));
        lemma_version_order_trailing_zero(a.drop_first());
        assert(head_or_zero(a.push(0)) == head_or_zero(a));
        assert(tail_or_empty(a.push(0)) == tail_or_empty(a).push(0));
    }
}

/// `k` zero components.
pub open spec fn zeros(k: nat) -> Seq<u64> {
    Seq::new(k, |i: int| 0u64)
}

/// A version with zero components added up to length `n`.
pub open spec fn padded(v: Seq<u64>, n: nat) -> Seq<u64> {
    if v.len() <= n {
        v + zeros((n - v.len()) as nat)
    } else {
        v
    }
}

/// Lexicographic comparison of two sequences, as `Ord` orders slices:
/// -1 when `a` comes first, 1 when `b` does, 0 when they are equal.
pub open spec fn lex_order(a: Seq<u64>, b: Seq<u64>) -> int
    decreases a.len(),
{
    if a.len() == 0 {
        if b.len() == 0 {
            0
        } else {
            -1
        }
    } else if b.len() == 0 {
        1
    } else if a[0] < b[0] {
        -1
    } else if a[0] > b[0] {
        1
    } else {
        lex_order(a.drop_first(), b.drop_first())
    }
}

proof fn lemma_zeros_against_empty(k: nat, b: Seq<u64>)
    ensures
        version_order(zeros(k), b) == version_order(Seq::<u64>::empty(), b),
    decreases k + b.len(),
{
    if k > 0 {
        let z = zeros(k);
        assert(tail_or_empty(z) =~= zeros((k - 1) as nat));
        assert(head_or_zero(z) == 0);
        lemma_zeros_against_empty((k - 1) as nat, tail_or_empty(b));
        if b.len() > 0 {
            lemma_zeros_against_empty(0, tail_or_empty(b));
            assert(zeros(0) =~= Seq::<u64>::empty());
        } else {
            assert(tail_or_empty(b) =~= Seq::<u64>::empty());
            assert(zeros(0) =~= Seq::<u64>::empty());
        }
    } else {
        assert(zeros(k) =~= Seq::<u64>::empty());
    }
}

/// Zero components added at the end of a version do not change how it
/// compares with any other.
pub proof fn lemma_version_order_zeros(a: Seq<u64>, b: Seq<u64>, k: nat)
    ensures
        version_order(a + zeros(k), b) == version_order(a, b),
    decreases a.len() + b.len(),
{
    if a.len() == 0 {
        assert(a + zeros(k) =~= zeros(k));
        assert(a =~= Seq::<u64>::empty());
        lemma_zeros_against_empty(k, b);
    } else {
        let az = a + zeros(k);
        assert(head_or_zero(az) == head_or_zero(a));
        assert(tail_or_empty(az) =~= tail_or_empty(a) + zeros(k));
        lemma_version_order_zeros(tail_or_empty(a), tail_or_empty(b), k);
    }
}

proof fn lemma_equal_length_lex(a: Seq<u64>, b: Seq<u64>)
    requires
        a.len() == b.len(),
    ensures
        version_order(a, b) == lex_order(a, b),
    decreases a.len(),
{
    if a.len() > 0 {
        lemma_equal_length_lex(a.drop_first(), b.drop_first());
    }
}

/// Comparing versions is comparing them lexicographically once the shorter
/// is padded with zero components to the length of the longer.
pub proof fn lemma_version_order_is_padded_lex(a: Seq<u64>, b: Seq<u64>)
    ensures
        ({
            let n = if a.len() >= b.len() {
                a.len()
            } else {
                b.len()
            };
            version_order(a, b) == lex_order(padded(a, n), padded(b, n))
        }),
{
    let n = if a.len() >= b.len() {
        a.len()
    } else {
        b.len()
    };
    let pa = padded(a, n);
    let pb = padded(b, n);
    lemma_version_order_zeros(a, pb, (n - a.len()) as nat);
    lemma_version_order_antisymmetric(a, pb);
    lemma_version_order_zeros(b, a, (n - b.len()) as nat);
    lemma_version_order_antisymmetric(b, a);
    lemma_version_order_antisymmetric(pb, a);
    lemma_equal_length_lex(pa, pb);
}

proof fn lemma_components_step(v: Seq<u64>, i: int)
    requires
        0 <= i,
    ensures
        head_or_zero(components_from(v, i)) == (if i < v.len() {
            v[i]
        } else {
            0
        }),
        tail_or_empty(components_from(v, i)) == components_from(v, i + 1),
        i >= v.len() ==> components_from(v, i).len() == 0,
{
    if i < v.len() {
        assert(v.skip(i).drop_first() =~= v.skip(i + 1));
    }
}

/// The sign of the version order: -1, 0 or 1.
pub fn version_sign(a: &[u64], b: &[u64]) -> (r: i8)
    ensures
        r == version_order(a@, b@),
{
    let length = if a.len() > b.len() {
        a.len()
    } else {
        b.len()
    };
    assert(a@.skip(0) =~= a@);
    assert(b@.skip(0) =~= b@);
    for i in 0..length
        invariant
            length == if a.len() > b.len() {
                a.len()
            } else {
                b.len()
            },
            version_order(a@, b@) == version_order(
                components_from(a@, i as int),
                components_from(b@, i as int),
            ),
    {
        let x: u64 = if i < a.len() {
            a[i]
        } else {
            0
        };
        let y: u64 = if i < b.len() {
            b[i]
        } else {
            0
        };
        proof {
            lemma_components_step(a@, i as int);
            lemma_components_step(b@, i as int);
        }
        if x < y {
            return -1;
        }
        if x > y {
            return 1;
        }
    }
    proof {
        lemma_components_step(a@, length as int);
        lemma_components_step(b@, length as int);
    }
    0
}

/// Compares two versions numerically, component by component; a missing
/// component counts as zero.
pub fn compare_version(a: &[u64], b: &[u64]) -> (r: std::cmp::Ordering)
    ensures
        match r {
            std::cmp::Ordering::Less => version_order(a@, b@) < 0,
            std::cmp::Ordering::Equal => version_order(a@, b@) == 0,
            std::cmp::Ordering::Greater => version_order(a@, b@) > 0,
        },
{
    let sign = version_sign(a, b);
    if sign < 0 {
        std::cmp::Ordering::Less
    } else if sign == 0 {
        std::cmp::Ordering::Equal
    } else {
        std::cmp::Ordering::Greater
    }
}

/// Reads a package directory name into its version and architecture.
pub fn parse_package_directory(name: &str) -> (r: Option<(Vec<u64>, String)>)
    ensures
        match package_directory(name@) {
            Some((version, arch)) => match r {
                Some((v, a)) => v@ == version && a@ == arch,
                None => false,
            },
            None => r is None,
        },
{
    let chars = chars_of(name);
    if !has_prefix(&chars, PACKAGE_PREFIX) {
        return None;
    }
    let prefix_length = chars_of(PACKAGE_PREFIX).len();
    let rest_text = name.substring_char(prefix_length, chars.len());
    let rest = chars_of(rest_text);
    let ghost rest_view = name@.skip(PACKAGE_PREFIX@.len() as int);
    assert(rest@ =~= rest_view);
    let fields = split_bounds(&rest, '_');
    let ghost fields_view = split_on(rest_view, '_');
    assert(fields_view[0] == rest@.subrange(fields[0].0 as int, fields[0].1 as int));
    let version_text = sub_chars(&rest, fields[0].0, fields[0].1);
    assert(version_text@ == fields_view[0]);
    let components = split_bounds(&version_text, '.');
    let ghost components_view = split_on(version_text@, '.');
    let mut version: Vec<u64> = Vec::new();
    for k in 0..components.len()
        invariant
            components_view == split_on(version_text@, '.'),
            starts_with(name@, PACKAGE_PREFIX@),
            components_view == split_on(
                split_on(name@.skip(PACKAGE_PREFIX@.len() as int), '_')[0],
                '.',
            ),
            crate::text::pieces(version_text@, components@) == components_view,
            forall|j: int|
                0 <= j < components.len() ==> #[trigger] components@[j].0 <= components@[j].1
                    <= version_text.len(),
            version.len() == k,
            forall|j: int|
                0 <= j < k ==> (#[trigger] parse_u64(components_view[j])) == Some(version@[j]),
    {
        let (lo, hi) = components[k];
        assert(components_view[k as int] == version_text@.subrange(lo as int, hi as int));
        match parse_u64_range(&version_text, lo, hi) {
            Some(value) => version.push(value),
            None => {
                assert(parse_u64(components_view[k as int]) is None);
                return None;
            },
        }
    }
    if fields.len() < 2 {
        return None;
    }
    let arch = String::from_str(rest_text.substring_char(fields[1].0, fields[1].1));
    assert(fields_view[1] == rest@.subrange(fields[1].0 as int, fields[1].1 as int));
    assert(version@ =~= Seq::new(
        components_view.len(),
        |k: int| parse_u64(components_view[k])->0,
    ));
    Some((version, arch))
}

/// The package architecture name that Windows uses for a Rust target
/// architecture (`std::env::consts::ARCH`); empty for an unknown one.
pub fn package_arch(target_arch: &str) -> (r: &'static str)
    ensures
        r@ == if target_arch@ == "x86_64"@ {
            "x64"@
        } else if target_arch@ == "x86"@ {
            "x86"@
        } else if target_arch@ == "aarch64"@ {
            "arm64"@
        } else {
            ""@
        },
{
    if text_equals(target_arch, "x86_64") {
        "x64"
    } else if text_equals(target_arch, "x86") {
        "x86"
    } else if text_equals(target_arch, "aarch64") {
        "arm64"
    } else {
        ""
    }
}

/// A directory found under `WindowsApps`: its name, and whether
/// `app\chatgpt.exe` exists in it.
pub struct PackageEntry {
    pub name: String,
    pub launchable: bool,
}

/// Whether an entry is an installed package of the wanted architecture.
pub open spec fn is_candidate(entry: PackageEntry, arch: Seq<char>) -> bool {
    &&& package_directory(entry.name@) is Some
    &&& match package_directory(entry.name@) {
        Some((_, entry_arch)) => entry_arch == arch,
        None => false,
    }
    &&& entry.launchable
}

pub open spec fn entry_version(entry: PackageEntry) -> Seq<u64> {
    match package_directory(entry.name@) {
        Some((version, _)) => version,
        None => Seq::<u64>::empty(),
    }
}

/// Among the launchable packages of architecture `arch`, the position of
/// the newest; of several equally new ones, the first.
pub fn newest_package(entries: &Vec<PackageEntry>, arch: &str) -> (r: Option<usize>)
    ensures
        match r {
            None => forall|j: int| 0 <= j < entries.len() ==> !is_candidate(#[trigger] entries@[j], arch@),
            Some(k) => {
                &&& k < entries.len()
                &&& is_candidate(entries@[k as int], arch@)
                &&& forall|j: int|
                    0 <= j < entries.len() && is_candidate(#[trigger] entries@[j], arch@)
                        ==> version_order(entry_version(entries@[j]), entry_version(entries@[k as int])) <= 0
                &&& forall|j: int|
                    0 <= j < k && is_candidate(#[trigger] entries@[j], arch@) ==> version_order(
                        entry_version(entries@[j]),
                        entry_version(entries@[k as int]),
                    ) < 0
            },
        },
{
    let mut newest: Option<(usize, Vec<u64>)> = None;
    for i in 0..entries.len()
        invariant
            match newest {
                None => forall|j: int| 0 <= j < i ==> !is_candidate(#[trigger] entries@[j], arch@),
                Some((k, version)) => {
                    &&& k < i
                    &&& is_candidate(entries@[k as int], arch@)
                    &&& version@ == entry_version(entries@[k as int])
                    &&& forall|j: int|
                        0 <= j < i && is_candidate(#[trigger] entries@[j], arch@) ==> version_order(
                            entry_version(entries@[j]),
                            version@,
                        ) <= 0
                    &&& forall|j: int|
                        0 <= j < k && is_candidate(#[trigger] entries@[j], arch@) ==> version_order(
                            entry_version(entries@[j]),
                            version@,
                        ) < 0
                },
            },
    {
        let entry = &entries[i];
        if entry.launchable {
            if let Some((version, entry_arch)) = parse_package_directory(entry.name.as_str()) {
                if text_equals(entry_arch.as_str(), arch) {
                    let replace = match &newest {
                        None => true,
                        Some((_, current)) => version_sign(version.as_slice(), current.as_slice()) > 0,
                    };
                    if replace {
                        proof {
                            if let Some((k, current)) = &newest {
                                lemma_version_order_antisymmetric(version@, current@);
                                assert forall|j: int|
                                    0 <= j < i && is_candidate(#[trigger] entries@[j], arch@)
                                        implies version_order(entry_version(entries@[j]), version@)
                                    < 0 by {
                                    lemma_version_order_transitive(
                                        entry_version(entries@[j]),
                                        current@,
                                        version@,
                                    );
                                }
                            }
                            lemma_version_order_reflexive(version@);
                        }
                        newest = Some((i, version));
                    } else {
                        proof {
                            if let Some((_, current)) = &newest {
                                lemma_version_order_range(version@, current@);
                            }
                        }
                    }
                }
            }
        }
    }
    match newest {
        Some((k, _)) => Some(k),
        None => None,
    }
}

} // verus!
