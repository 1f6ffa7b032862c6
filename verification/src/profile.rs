//! Profile keys and container directory layout: deriving a stable,
//! human-readable key from a game title, allocating unique numbered keys
//! against the set of existing ones, deciding which legacy keys need
//! migration, and computing the per-game container paths.

use vstd::prelude::*;

use crate::text::chars_start_with;
use crate::text::chars_string;
use crate::text::format_u64_pad3;
use crate::text::is_control;
use crate::text::is_space;
use crate::text::parse_u32_digits;
use crate::text::spec_all_digits;
use crate::text::spec_dec_pad3;
use crate::text::spec_dec_value;
use crate::text::spec_is_control;
use crate::text::spec_is_space;
use crate::text::spec_trim;
use crate::text::spec_trim_char;
use crate::text::str_chars;
use crate::text::trim_char;
use crate::text::trim_chars;

verus! {

/// Whether a title character survives sanitization: control characters and
/// the three path-separator characters are stripped.
pub open spec fn spec_keeps(c: char) -> bool {
    !spec_is_control(c) && c != '/' && c != '\\' && c != ':'
}

/// Sanitization before trimming: stripped characters are dropped, each run of
/// whitespace collapses to a single underscore, everything else is kept.
/// `prev_space` records whether the previous kept character was whitespace.
pub open spec fn spec_sanitize_core(s: Seq<char>, prev_space: bool) -> Seq<char>
    decreases s.len(),
{
    if s.len() == 0 {
        Seq::empty()
    } else {
        let c = s[0];
        let rest = s.skip(1);
        if !spec_keeps(c) {
            spec_sanitize_core(rest, prev_space)
        } else if spec_is_space(c) {
            if prev_space {
                spec_sanitize_core(rest, true)
            } else {
                seq!['_'] + spec_sanitize_core(rest, true)
            }
        } else {
            seq![c] + spec_sanitize_core(rest, false)
        }
    }
}

/// The sanitized base of a profile key: collapse and strip, trim underscores
/// at both ends, fall back to `game` when nothing is left, and truncate to 40
/// characters.
pub open spec fn spec_sanitize_base(title: Seq<char>) -> Seq<char> {
    let trimmed = spec_trim_char(spec_sanitize_core(title, false), '_');
    let named = if trimmed.len() == 0 {
        "game"@
    } else {
        trimmed
    };
    if named.len() <= 40 {
        named
    } else {
        named.take(40)
    }
}

/// Derives the sanitized base of a profile key from a game title.
pub fn sanitize_profile_base(title: &str) -> (r: String)
    ensures
        r@ == spec_sanitize_base(title@),
{
    let v = str_chars(title);
    let mut out: Vec<char> = Vec::new();
    let mut prev_space: bool = false;
    let mut i: usize = 0;
    assert(v@.skip(0) =~= v@);
    while i < v.len()
        invariant
            0 <= i <= v@.len(),
            spec_sanitize_core(v@, false) == out@ + spec_sanitize_core(
                v@.skip(i as int),
                prev_space,
            ),
        decreases v@.len() - i,
    {
        let c = v[i];
        assert(v@.skip(i as int)[0] == v@[i as int]);
        assert(v@.skip(i as int).skip(1) =~= v@.skip(i + 1));
        if is_control(c) || c == '/' || c == '\\' || c == ':' {
            // stripped
        } else if is_space(c) {
            if !prev_space {
                out.push('_');
            }
            prev_space = true;
        } else {
            out.push(c);
            prev_space = false;
        }
        i = i + 1;
    }
    assert(v@.skip(v@.len() as int) =~= Seq::<char>::empty());
    assert(out@ == spec_sanitize_core(v@, false));
    let trimmed = trim_char(&out, '_');
    let named: Vec<char> = if trimmed.len() == 0 {
        str_chars("game")
    } else {
        trimmed
    };
    if named.len() <= 40 {
        chars_string(&named)
    } else {
        let mut cut: Vec<char> = Vec::new();
        let mut j: usize = 0;
        while j < 40
            invariant
                0 <= j <= 40 <= named@.len(),
                cut@ =~= named@.take(j as int),
            decreases 40 - j,
        {
            cut.push(named[j]);
            j = j + 1;
        }
        chars_string(&cut)
    }
}

/// The numeric suffix of `key` under `base`: the value of the digits after
/// `base-`, when `key` has that shape and the value fits in `u32`.
pub open spec fn spec_suffix_of(key: Seq<char>, base: Seq<char>) -> Option<nat> {
    let prefix = base.push('-');
    if prefix.is_prefix_of(key) {
        let rest = key.skip(prefix.len() as int);
        if spec_all_digits(rest) && spec_dec_value(rest) <= u32::MAX {
            Some(spec_dec_value(rest))
        } else {
            None
        }
    } else {
        None
    }
}

/// Reads the numeric suffix of a key of the shape `base-NNN`. Returns `Some`
/// exactly when `key` starts with `base-` and the rest is a decimal numeral
/// whose value fits in `u32`.
pub fn parse_profile_suffix(key: &str, base: &str) -> (r: Option<u32>)
    ensures
        match r {
            Some(n) => spec_suffix_of(key@, base@) == Some(n as nat),
            None => spec_suffix_of(key@, base@) is None,
        },
{
    let kv = str_chars(key);
    let bv = str_chars(base);
    let mut prefix = bv;
    prefix.push('-');
    if !chars_start_with(&kv, &prefix) {
        return None;
    }
    let mut rest: Vec<char> = Vec::new();
    let mut i: usize = prefix.len();
    while i < kv.len()
        invariant
            prefix@.len() <= i <= kv@.len(),
            rest@ =~= kv@.subrange(prefix@.len() as int, i as int),
        decreases kv@.len() - i,
    {
        rest.push(kv[i]);
        i = i + 1;
    }
    assert(rest@ =~= kv@.skip(prefix@.len() as int));
    parse_u32_digits(&rest)
}

/// The largest numeric suffix under `base` among `keys`, or zero when none
/// has one.
pub open spec fn spec_max_suffix(keys: Seq<Seq<char>>, base: Seq<char>) -> nat
    decreases keys.len(),
{
    if keys.len() == 0 {
        0
    } else {
        let m = spec_max_suffix(keys.drop_last(), base);
        match spec_suffix_of(keys.last(), base) {
            Some(n) => if n > m {
                n
            } else {
                m
            },
            None => m,
        }
    }
}

/// The views of a vector of strings.
pub open spec fn spec_key_views(keys: Seq<String>) -> Seq<Seq<char>> {
    keys.map_values(|s: String| s@)
}

/// The profile key `base-NNN`, with the number zero-padded to three digits.
pub open spec fn spec_format_key(base: Seq<char>, num: nat) -> Seq<char> {
    base.push('-') + spec_dec_pad3(num)
}

/// Writes the key `base-NNN` with the number zero-padded to three digits.
pub fn format_profile_key(base: &str, num: u64) -> (r: String)
    ensures
        r@ == spec_format_key(base@, num as nat),
{
    let mut v = str_chars(base);
    v.push('-');
    let digits = format_u64_pad3(num);
    let mut i: usize = 0;
    while i < digits.len()
        invariant
            0 <= i <= digits@.len(),
            v@ =~= base@.push('-') + digits@.take(i as int),
        decreases digits@.len() - i,
    {
        v.push(digits[i]);
        i = i + 1;
    }
    assert(digits@.take(digits@.len() as int) =~= digits@);
    chars_string(&v)
}

/// The key that allocation yields for `title` against `keys`: the sanitized
/// base with the successor of the largest existing suffix, zero-padded.
pub open spec fn spec_generate_key(title: Seq<char>, keys: Seq<Seq<char>>) -> Seq<char> {
    let base = spec_sanitize_base(title);
    spec_format_key(base, spec_max_suffix(keys, base) + 1)
}

/// Allocates the next free profile key for `title` given the keys already in
/// use: scans the used keys for numeric suffixes of the sanitized base and
/// takes the next number.
pub fn generate_profile_key_from_used(title: &str, used: &Vec<String>) -> (r: String)
    ensures
        r@ == spec_generate_key(title@, spec_key_views(used@)),
{
    let base = sanitize_profile_base(title);
    let ghost keys = spec_key_views(used@);
    let mut max_num: u64 = 0;
    let mut i: usize = 0;
    assert(keys.take(0) =~= Seq::<Seq<char>>::empty());
    while i < used.len()
        invariant
            0 <= i <= used@.len(),
            keys == spec_key_views(used@),
            base@ == spec_sanitize_base(title@),
            max_num == spec_max_suffix(keys.take(i as int), base@),
            max_num <= u32::MAX,
        decreases used@.len() - i,
    {
        assert(keys.take(i + 1).drop_last() =~= keys.take(i as int));
        assert(keys.take(i + 1).last() == used@[i as int]@);
        match parse_profile_suffix(used[i].as_str(), base.as_str()) {
            Some(n) => {
                if (n as u64) > max_num {
                    max_num = n as u64;
                }
            },
            None => {},
        }
        i = i + 1;
    }
    assert(keys.take(used@.len() as int) =~= keys);
    format_profile_key(base.as_str(), max_num + 1)
}

/// Allocates the next free profile key for `title` against the existing key
/// registry.
pub fn generate_profile_key(title: &str, existing_keys: &Vec<String>) -> (r: String)
    ensures
        r@ == spec_generate_key(title@, spec_key_views(existing_keys@)),
{
    generate_profile_key_from_used(title, existing_keys)
}

/// A key written as `base-NNN` parses back to its number.
proof fn lemma_suffix_of_format(base: Seq<char>, n: nat)
    requires
        n <= u32::MAX,
    ensures
        spec_suffix_of(spec_format_key(base, n), base) == Some(n),
{
    let prefix = base.push('-');
    let key = spec_format_key(base, n);
    crate::text::lemma_dec_pad3_value(n);
    assert(key =~= prefix + spec_dec_pad3(n));
    assert(key.take(prefix.len() as int) =~= prefix);
    assert(prefix.is_prefix_of(key));
    assert(key.skip(prefix.len() as int) =~= spec_dec_pad3(n));
}

/// The maximum suffix is at least every suffix present among the keys.
proof fn lemma_max_suffix_ge(keys: Seq<Seq<char>>, base: Seq<char>, i: int)
    requires
        0 <= i < keys.len(),
        spec_suffix_of(keys[i], base) is Some,
    ensures
        spec_max_suffix(keys, base) >= spec_suffix_of(keys[i], base)->0,
    decreases keys.len(),
{
    if i == keys.len() - 1 {
        assert(keys.last() == keys[i]);
    } else {
        assert(keys.drop_last()[i] == keys[i]);
        lemma_max_suffix_ge(keys.drop_last(), base, i);
    }
}

/// Key allocation is collision-free: the key generated for a title is never
/// one of the keys already in use, so duplicate titles still get distinct
/// container directory names.
pub proof fn lemma_generated_key_is_fresh(title: Seq<char>, keys: Seq<Seq<char>>)
    requires
        spec_max_suffix(keys, spec_sanitize_base(title)) < u32::MAX,
    ensures
        !keys.contains(spec_generate_key(title, keys)),
{
    let base = spec_sanitize_base(title);
    let m = spec_max_suffix(keys, base);
    let g = spec_generate_key(title, keys);
    assert(g == spec_format_key(base, m + 1));
    if keys.contains(g) {
        let i = choose|i: int| 0 <= i < keys.len() && keys[i] == g;
        lemma_suffix_of_format(base, m + 1);
        lemma_max_suffix_ge(keys, base, i);
        assert(spec_max_suffix(keys, base) >= m + 1);
    }
}

/// The number of occurrences of `c` in `s`.
pub open spec fn spec_count_char(s: Seq<char>, c: char) -> nat
    decreases s.len(),
{
    if s.len() == 0 {
        0
    } else {
        spec_count_char(s.drop_last(), c) + (if s.last() == c {
            1nat
        } else {
            0nat
        })
    }
}

/// Whether a stored key is legacy and needs migration: after trimming
/// whitespace it is empty, or it has the structural shape of a UUID
/// (36 characters of which exactly 4 are hyphens).
pub open spec fn spec_needs_migration(key: Seq<char>) -> bool {
    let t = spec_trim(key);
    t.len() == 0 || (t.len() == 36 && spec_count_char(t, '-') == 4)
}

/// Decides whether a profile key is legacy (empty or UUID-shaped) and must be
/// migrated to a readable key.
pub fn needs_profile_key_migration(key: &str) -> (r: bool)
    ensures
        r == spec_needs_migration(key@),
{
    let kv = str_chars(key);
    let t = trim_chars(&kv);
    if t.len() == 0 {
        return true;
    }
    if t.len() != 36 {
        return false;
    }
    let mut count: u64 = 0;
    let mut i: usize = 0;
    assert(t@.take(0) =~= Seq::<char>::empty());
    while i < t.len()
        invariant
            0 <= i <= t@.len(),
            count == spec_count_char(t@.take(i as int), '-'),
            count <= i,
        decreases t@.len() - i,
    {
        assert(t@.take(i + 1).drop_last() =~= t@.take(i as int));
        assert(t@.take(i + 1).last() == t@[i as int]);
        if t[i] == '-' {
            count = count + 1;
        }
        i = i + 1;
    }
    assert(t@.take(t@.len() as int) =~= t@);
    count == 4
}

/// One game's identity as the migration pass reads it.
pub struct ProfileEntry {
    /// Record id.
    pub id: String,
    /// Display title, the source of the new key.
    pub title: String,
    /// The stored profile key.
    pub profile_key: String,
}

/// One planned key migration: the record, its legacy key, and the fresh key.
pub struct ProfileMigration {
    /// Record id.
    pub id: String,
    /// The legacy key being replaced.
    pub old_key: String,
    /// The freshly allocated readable key.
    pub new_key: String,
}

/// The views of migration-pass entries.
pub open spec fn spec_entry_triples(s: Seq<ProfileEntry>) -> Seq<(Seq<char>, Seq<char>, Seq<char>)> {
    s.map_values(|e: ProfileEntry| (e.id@, e.title@, e.profile_key@))
}

/// The views of planned migrations.
pub open spec fn spec_migration_triples(s: Seq<ProfileMigration>) -> Seq<
    (Seq<char>, Seq<char>, Seq<char>),
> {
    s.map_values(|m: ProfileMigration| (m.id@, m.old_key@, m.new_key@))
}

/// The migration plan over the entries, left to right: an entry whose key is
/// not legacy is left alone; a legacy key gets the next free key generated
/// against the keys used so far, which then counts as used.
pub open spec fn spec_plan_migrations(
    entries: Seq<(Seq<char>, Seq<char>, Seq<char>)>,
    used: Seq<Seq<char>>,
) -> Seq<(Seq<char>, Seq<char>, Seq<char>)>
    decreases entries.len(),
{
    if entries.len() == 0 {
        Seq::empty()
    } else {
        let e = entries[0];
        let rest = entries.skip(1);
        if !spec_needs_migration(e.2) {
            spec_plan_migrations(rest, used)
        } else {
            let nk = spec_generate_key(e.1, used);
            if nk == e.2 {
                spec_plan_migrations(rest, used)
            } else {
                seq![(e.0, e.2, nk)] + spec_plan_migrations(rest, used.push(nk))
            }
        }
    }
}

/// Plans the migration of legacy profile keys to readable ones: every key
/// that is empty or UUID-shaped gets a fresh key allocated against all keys
/// in use, including the ones this very pass allocates; readable keys stay
/// untouched.
pub fn plan_profile_key_migrations(entries: Vec<ProfileEntry>) -> (r: Vec<ProfileMigration>)
    ensures
        spec_migration_triples(r@) == spec_plan_migrations(
            spec_entry_triples(entries@),
            spec_key_views(entries@.map_values(|e: ProfileEntry| e.profile_key)),
        ),
{
    let ghost eviews = spec_entry_triples(entries@);
    let mut used: Vec<String> = Vec::new();
    let mut k: usize = 0;
    while k < entries.len()
        invariant
            0 <= k <= entries@.len(),
            spec_key_views(used@) =~= spec_key_views(
                entries@.map_values(|e: ProfileEntry| e.profile_key),
            ).take(k as int),
        decreases entries@.len() - k,
    {
        let ghost before = spec_key_views(used@);
        used.push(entries[k].profile_key.clone());
        assert(spec_key_views(used@) =~= before.push(entries@[k as int].profile_key@));
        assert(spec_key_views(entries@.map_values(|e: ProfileEntry| e.profile_key)).take(k + 1)
            =~= spec_key_views(entries@.map_values(|e: ProfileEntry| e.profile_key)).take(
            k as int,
        ).push(entries@[k as int].profile_key@));
        k = k + 1;
    }
    assert(spec_key_views(entries@.map_values(|e: ProfileEntry| e.profile_key)).take(
        entries@.len() as int,
    ) =~= spec_key_views(entries@.map_values(|e: ProfileEntry| e.profile_key)));
    let ghost used0 = spec_key_views(used@);
    let mut es = entries;
    let mut out: Vec<ProfileMigration> = Vec::new();
    assert(spec_migration_triples(out@) =~= Seq::<(Seq<char>, Seq<char>, Seq<char>)>::empty());
    loop
        invariant
            eviews == spec_entry_triples(entries@),
            used0 == spec_key_views(entries@.map_values(|e: ProfileEntry| e.profile_key)),
            spec_plan_migrations(eviews, used0) == spec_migration_triples(out@)
                + spec_plan_migrations(spec_entry_triples(es@), spec_key_views(used@)),
        decreases es@.len(),
    {
        if es.len() == 0 {
            assert(spec_migration_triples(out@) + Seq::<(Seq<char>, Seq<char>, Seq<char>)>::empty()
                =~= spec_migration_triples(out@));
            return out;
        }
        let ghost esv = spec_entry_triples(es@);
        let e = es.remove(0);
        assert(esv[0] == (e.id@, e.title@, e.profile_key@));
        assert(spec_entry_triples(es@) =~= esv.skip(1));
        if needs_profile_key_migration(e.profile_key.as_str()) {
            let nk = generate_profile_key_from_used(e.title.as_str(), &used);
            if !crate::text::str_eq(nk.as_str(), e.profile_key.as_str()) {
                let ghost before = spec_migration_triples(out@);
                let ghost before_used = spec_key_views(used@);
                let ghost idv = e.id@;
                let ghost okv = e.profile_key@;
                let ghost nkv = nk@;
                out.push(
                    ProfileMigration { id: e.id, old_key: e.profile_key, new_key: nk.clone() },
                );
                used.push(nk);
                assert(spec_migration_triples(out@) =~= before.push((idv, okv, nkv)));
                assert(spec_key_views(used@) =~= before_used.push(nkv));
                proof {
                    let rest = spec_plan_migrations(esv.skip(1), before_used.push(nkv));
                    assert(before + (seq![(idv, okv, nkv)] + rest) =~= spec_migration_triples(out@)
                        + rest);
                }
            }
        }
    }
}

} // verus!
