//! Properties that hold across the library's functions.

use vstd::prelude::*;

use crate::json::{field, json_reading, str_field, JsonValue};
use crate::runtime::{
    arg_value, op_command, rendered, request_for, DispatchView, OpCommandView, OutputFormat,
    app_name_for, header_pairs, header_position, header_set,
    dispatch_grouped, dispatched, first_named, first_tag, group_add, group_keys, group_name,
    key_position, names_op, tag_groups, uses_tag_groups, DynamicCliConfigView, InvocationView,
};
use crate::spec::{
    collapse_hyphens, kebab, keyed_as, merged_params, op_at, operation_of, operations_of,
    or_text, params_of, parsed, path_item_ops, paths_ops, resolved, without_key, ApiSpecView,
    OperationView, ParamIn, ParameterView, SpecVersion, HttpMethod,
};
use crate::text::{trim_both, trim_end, trim_start};

verus! {

// ── Kebab case ────────────────────────────────────────────────────────────────

/// No hyphen at either end, and never two hyphens in a row.
pub open spec fn clean_hyphens(k: Seq<char>) -> bool {
    &&& k.len() > 0 ==> k[0] != '-'
    &&& k.len() > 0 ==> k.last() != '-'
    &&& forall|i: int| 0 <= i < k.len() - 1 ==> !(#[trigger] k[i] == '-' && k[i + 1] == '-')
}

/// No two hyphens in a row.
pub open spec fn no_double_hyphen(k: Seq<char>) -> bool {
    forall|i: int| 0 <= i < k.len() - 1 ==> !(#[trigger] k[i] == '-' && k[i + 1] == '-')
}

/// A character that kebab-case text of ASCII input is made of: ASCII, and
/// neither an uppercase letter, `_` nor a space.
pub open spec fn kebab_char(c: char) -> bool {
    (c as u32) < 128 && !(65 <= (c as u32) && (c as u32) <= 90) && (c as u32) != 95 && (c as u32)
        != 32
}

/// An ASCII character other than an uppercase letter, `_` and a space is a
/// kebab character.
pub(crate) proof fn lemma_kebab_char(c: char)
    requires
        (c as u32) < 128,
        !(65 <= (c as u32) && (c as u32) <= 90),
        c != '_',
        c != ' ',
    ensures
        kebab_char(c),
{
}

/// Every character is ASCII.
pub open spec fn all_ascii(s: Seq<char>) -> bool {
    forall|i: int| 0 <= i < s.len() ==> (#[trigger] s[i] as u32) < 128
}

/// Text already in kebab case: kebab characters only, with clean hyphens.
pub open spec fn is_kebab(s: Seq<char>) -> bool {
    &&& forall|i: int| 0 <= i < s.len() ==> kebab_char(#[trigger] s[i])
    &&& clean_hyphens(s)
}

/// Every character of `s` is a kebab character.
pub open spec fn kebab_chars(s: Seq<char>) -> bool {
    forall|i: int| 0 <= i < s.len() ==> kebab_char(#[trigger] s[i])
}

/// Collapsing runs of hyphens leaves text without such runs unchanged.
pub(crate) proof fn lemma_collapse_noop(s: Seq<char>)
    requires
        no_double_hyphen(s),
    ensures
        collapse_hyphens(s) == s,
    decreases s.len(),
{
    if s.len() > 0 {
        let p = s.drop_last();
        assert(no_double_hyphen(p)) by {
            assert forall|i: int| 0 <= i < p.len() - 1 implies !(#[trigger] p[i] == '-' && p[i + 1]
                == '-') by {
                assert(p[i] == s[i] && p[i + 1] == s[i + 1]);
            }
        }
        lemma_collapse_noop(p);
        if s.len() >= 2 {
            assert(!(s[s.len() - 2] == '-' && s[s.len() - 1] == '-'));
        }
        assert(p.push(s.last()) =~= s);
    }
}

/// Collapsing runs of hyphens keeps text made of kebab characters so.
pub(crate) proof fn lemma_collapse_chars(s: Seq<char>)
    requires
        kebab_chars(s),
    ensures
        kebab_chars(collapse_hyphens(s)),
    decreases s.len(),
{
    if s.len() > 0 {
        let p = s.drop_last();
        assert(kebab_chars(p)) by {
            assert forall|i: int| 0 <= i < p.len() implies kebab_char(#[trigger] p[i]) by {
                assert(p[i] == s[i]);
            }
        }
        lemma_collapse_chars(p);
        let r = collapse_hyphens(p);
        let c = collapse_hyphens(s);
        assert(kebab_char(s[s.len() - 1]));
        assert forall|i: int| 0 <= i < c.len() implies kebab_char(#[trigger] c[i]) by {
            if i < r.len() {
                assert(c[i] == r[i]);
            }
        }
    }
}

/// Trimming hyphens keeps text made of kebab characters so.
pub(crate) proof fn lemma_trim_chars(s: Seq<char>)
    requires
        kebab_chars(s),
    ensures
        kebab_chars(trim_both(s, '-')),
{
    lemma_trim_start(s, '-');
    let t = trim_start(s, '-');
    let k = choose|k: int| 0 <= k <= s.len() && t == s.skip(k);
    assert(kebab_chars(t)) by {
        assert forall|i: int| 0 <= i < t.len() implies kebab_char(#[trigger] t[i]) by {
            assert(t[i] == s[k + i]);
        }
    }
    lemma_trim_end(t, '-');
    let u = trim_end(t, '-');
    let j = choose|j: int| 0 <= j <= t.len() && u == t.take(j);
    assert forall|i: int| 0 <= i < u.len() implies kebab_char(#[trigger] u[i]) by {
        assert(u[i] == t[i]);
    }
}

/// A separator that kebab case turns into a hyphen or keeps as one.
pub open spec fn separator(c: char) -> bool {
    c == '-' || c == '_' || c == ' '
}

/// Every character is a separator.
pub open spec fn only_separators(s: Seq<char>) -> bool {
    forall|i: int| 0 <= i < s.len() ==> separator(#[trigger] s[i])
}

/// Some character is not a hyphen.
pub open spec fn has_word(s: Seq<char>) -> bool {
    exists|i: int| 0 <= i < s.len() && #[trigger] s[i] != '-'
}

/// No `_` and no space.
pub open spec fn no_underscore_space(s: Seq<char>) -> bool {
    forall|i: int| 0 <= i < s.len() ==> #[trigger] s[i] != '_' && s[i] != ' '
}

/// Appending keeps or adds characters other than hyphens, `_` and spaces.
pub(crate) proof fn lemma_append_chars(t: Seq<char>, extra: Seq<char>)
    ensures
        has_word(t + extra) == (has_word(t) || has_word(extra)),
        no_underscore_space(t + extra) == (no_underscore_space(t) && no_underscore_space(extra)),
{
    let u = t + extra;
    if has_word(t) {
        let i = choose|i: int| 0 <= i < t.len() && t[i] != '-';
        assert(u[i] == t[i]);
    }
    if has_word(extra) {
        let i = choose|i: int| 0 <= i < extra.len() && extra[i] != '-';
        assert(u[t.len() + i] == extra[i]);
    }
    if has_word(u) {
        let i = choose|i: int| 0 <= i < u.len() && u[i] != '-';
        if i < t.len() {
            assert(u[i] == t[i]);
        } else {
            assert(u[i] == extra[i - t.len()]);
        }
    }
    if no_underscore_space(t) && no_underscore_space(extra) {
        assert forall|i: int| 0 <= i < u.len() implies #[trigger] u[i] != '_' && u[i] != ' ' by {
            if i < t.len() {
                assert(u[i] == t[i]);
            } else {
                assert(u[i] == extra[i - t.len()]);
            }
        }
    }
    if no_underscore_space(u) {
        assert forall|i: int| 0 <= i < t.len() implies #[trigger] t[i] != '_' && t[i] != ' ' by {
            assert(u[i] == t[i]);
        }
        assert forall|i: int| 0 <= i < extra.len() implies #[trigger] extra[i] != '_' && extra[i]
            != ' ' by {
            assert(u[t.len() + i] == extra[i]);
        }
    }
}

/// A prefix one longer is all separators when the shorter one is and the
/// new character is one.
pub(crate) proof fn lemma_separators_push(t: Seq<char>, c: char)
    ensures
        only_separators(t.push(c)) == (only_separators(t) && separator(c)),
{
    let u = t.push(c);
    if only_separators(u) {
        assert(separator(u[t.len() as int]));
        assert forall|i: int| 0 <= i < t.len() implies separator(#[trigger] t[i]) by {
            assert(u[i] == t[i]);
        }
    }
    if only_separators(t) && separator(c) {
        assert forall|i: int| 0 <= i < u.len() implies separator(#[trigger] u[i]) by {
            if i < t.len() {
                assert(u[i] == t[i]);
            }
        }
    }
}

/// Every character of `collapse_hyphens(s)` is one of `s`, and `s` has a
/// character other than a hyphen exactly when the collapsed text has.
pub(crate) proof fn lemma_collapse_keeps(s: Seq<char>)
    ensures
        forall|j: int| 0 <= j < collapse_hyphens(s).len() ==> exists|k: int| 0 <= k < s.len()
            && #[trigger] collapse_hyphens(s)[j] == s[k],
        has_word(collapse_hyphens(s)) == has_word(s),
    decreases s.len(),
{
    if s.len() > 0 {
        let p = s.drop_last();
        lemma_collapse_keeps(p);
        let r = collapse_hyphens(p);
        let c = collapse_hyphens(s);
        assert forall|j: int| 0 <= j < c.len() implies exists|k: int| 0 <= k < s.len()
            && #[trigger] c[j] == s[k] by {
            if j < r.len() {
                assert(c[j] == r[j]);
                let k = choose|k: int| 0 <= k < p.len() && r[j] == p[k];
                assert(p[k] == s[k]);
            } else {
                assert(c[j] == s[s.len() - 1]);
            }
        }
        if has_word(s) {
            let i = choose|i: int| 0 <= i < s.len() && s[i] != '-';
            if i < s.len() - 1 {
                assert(p[i] == s[i]);
                assert(has_word(p));
                let j = choose|j: int| 0 <= j < r.len() && r[j] != '-';
                assert(c[j] == r[j]);
            } else {
                assert(c.last() == s.last());
            }
        }
        if has_word(c) {
            let j = choose|j: int| 0 <= j < c.len() && c[j] != '-';
            let k = choose|k: int| 0 <= k < s.len() && c[j] == s[k];
            assert(s[k] != '-');
        }
    }
}

/// Trimming leading hyphens leaves something when there is a character
/// other than a hyphen, and nothing otherwise.
proof fn lemma_trim_start_word(s: Seq<char>)
    ensures
        (trim_start(s, '-').len() > 0) == has_word(s),
    decreases s.len(),
{
    if s.len() > 0 {
        if s[0] == '-' {
            lemma_trim_start_word(s.drop_first());
            if has_word(s) {
                let i = choose|i: int| 0 <= i < s.len() && s[i] != '-';
                assert(s.drop_first()[i - 1] == s[i]);
            }
            if has_word(s.drop_first()) {
                let i = choose|i: int| 0 <= i < s.drop_first().len() && s.drop_first()[i] != '-';
                assert(s[i + 1] == s.drop_first()[i]);
            }
        } else {
            assert(s[0] != '-');
        }
    }
}

/// Trimming hyphens from both ends leaves nothing exactly when every
/// character is a hyphen; every character left is one of `s`.
pub(crate) proof fn lemma_trim_both_keeps(s: Seq<char>)
    ensures
        (trim_both(s, '-').len() > 0) == has_word(s),
        forall|j: int| 0 <= j < trim_both(s, '-').len() ==> exists|k: int| 0 <= k < s.len()
            && #[trigger] trim_both(s, '-')[j] == s[k],
{
    lemma_trim_start_word(s);
    lemma_trim_start(s, '-');
    let t = trim_start(s, '-');
    let k0 = choose|k: int| 0 <= k <= s.len() && t == s.skip(k);
    lemma_trim_end(t, '-');
    let u = trim_end(t, '-');
    let j0 = choose|j: int| 0 <= j <= t.len() && u == t.take(j);
    if t.len() > 0 {
        lemma_trim_end_keeps_first(t, '-');
    }
    assert forall|j: int| 0 <= j < u.len() implies exists|k: int| 0 <= k < s.len()
        && #[trigger] u[j] == s[k] by {
        assert(u[j] == t[j]);
        assert(t[j] == s[k0 + j]);
    }
}

proof fn lemma_collapse(s: Seq<char>)
    ensures
        no_double_hyphen(collapse_hyphens(s)),
        s.len() > 0 ==> collapse_hyphens(s).len() > 0 && collapse_hyphens(s).last() == s.last(),
    decreases s.len(),
{
    if s.len() > 0 {
        let r = collapse_hyphens(s.drop_last());
        lemma_collapse(s.drop_last());
        if s.last() == '-' && s.len() >= 2 && s[s.len() - 2] == '-' {
            assert(s.drop_last().last() == s[s.len() - 2]);
        } else {
            let c = collapse_hyphens(s);
            assert(c == r.push(s.last()));
            assert forall|i: int| 0 <= i < c.len() - 1 implies !(#[trigger] c[i] == '-' && c[i + 1]
                == '-') by {
                if i < r.len() - 1 {
                    assert(c[i] == r[i] && c[i + 1] == r[i + 1]);
                } else {
                    assert(i == r.len() - 1);
                    if s.len() >= 2 {
                        assert(r.last() == s.drop_last().last());
                        assert(s.drop_last().last() == s[s.len() - 2]);
                    }
                }
            }
        }
    }
}

proof fn lemma_trim_start(s: Seq<char>, c: char)
    ensures
        exists|k: int| 0 <= k <= s.len() && trim_start(s, c) == s.skip(k),
        trim_start(s, c).len() > 0 ==> trim_start(s, c)[0] != c,
    decreases s.len(),
{
    if s.len() > 0 && s[0] == c {
        lemma_trim_start(s.drop_first(), c);
        let k = choose|k: int| 0 <= k <= s.drop_first().len() && trim_start(s.drop_first(), c)
            == s.drop_first().skip(k);
        assert(s.drop_first().skip(k) =~= s.skip(k + 1));
    } else {
        assert(s.skip(0) =~= s);
    }
}

proof fn lemma_trim_end(s: Seq<char>, c: char)
    ensures
        exists|k: int| 0 <= k <= s.len() && trim_end(s, c) == s.take(k),
        trim_end(s, c).len() > 0 ==> trim_end(s, c).last() != c,
    decreases s.len(),
{
    if s.len() > 0 && s.last() == c {
        lemma_trim_end(s.drop_last(), c);
        let k = choose|k: int| 0 <= k <= s.drop_last().len() && trim_end(s.drop_last(), c)
            == s.drop_last().take(k);
        assert(s.drop_last().take(k) =~= s.take(k));
    } else {
        assert(s.take(s.len() as int) =~= s);
    }
}

proof fn lemma_trim_end_keeps_first(s: Seq<char>, c: char)
    requires
        s.len() > 0,
        s[0] != c,
    ensures
        trim_end(s, c).len() > 0,
        trim_end(s, c)[0] == s[0],
    decreases s.len(),
{
    if s.last() == c {
        assert(s.len() >= 2);
        lemma_trim_end_keeps_first(s.drop_last(), c);
    }
}

/// The kebab-case form of any identifier has no hyphen at either end and
/// never two hyphens in a row.
pub proof fn kebab_has_clean_hyphens(s: Seq<char>)
    ensures
        clean_hyphens(kebab(s)),
{
    let m = crate::spec::kebab_marked(s, s.len() as int);
    let c = collapse_hyphens(m);
    lemma_collapse(m);
    let t = trim_start(c, '-');
    lemma_trim_start(c, '-');
    let k1 = choose|k: int| 0 <= k <= c.len() && t == c.skip(k);
    assert(no_double_hyphen(t)) by {
        assert forall|i: int| 0 <= i < t.len() - 1 implies !(#[trigger] t[i] == '-' && t[i + 1]
            == '-') by {
            assert(t[i] == c[i + k1] && t[i + 1] == c[i + k1 + 1]);
        }
    }
    let e = trim_end(t, '-');
    lemma_trim_end(t, '-');
    let k2 = choose|k: int| 0 <= k <= t.len() && e == t.take(k);
    assert forall|i: int| 0 <= i < e.len() - 1 implies !(#[trigger] e[i] == '-' && e[i + 1]
        == '-') by {
        assert(e[i] == t[i] && e[i + 1] == t[i + 1]);
    }
    if e.len() > 0 {
        assert(t.len() > 0);
        lemma_trim_end_keeps_first(t, '-');
    }
}


// ── Tag groups ────────────────────────────────────────────────────────────────

/// The keys of a tag map's entries.
pub open spec fn keys_of(gs: Seq<(Seq<char>, Seq<usize>)>) -> Seq<Seq<char>> {
    gs.map_values(|g: (Seq<char>, Seq<usize>)| g.0)
}

proof fn lemma_key_position_found(gs: Seq<(Seq<char>, Seq<usize>)>, t: Seq<char>)
    ensures
        key_position(gs, t) >= 0 <==> keys_of(gs).contains(t),
        key_position(gs, t) >= 0 ==> key_position(gs, t) < gs.len() && gs[key_position(gs, t)].0
            == t,
    decreases gs.len(),
{
    if gs.len() > 0 {
        lemma_key_position_found(gs.drop_last(), t);
        assert(keys_of(gs.drop_last()) =~= keys_of(gs).drop_last());
        if keys_of(gs).contains(t) {
            let k = choose|k: int| 0 <= k < keys_of(gs).len() && keys_of(gs)[k] == t;
            if k < gs.len() - 1 {
                assert(keys_of(gs.drop_last())[k] == t);
            }
        }
        if keys_of(gs.drop_last()).contains(t) {
            let k = choose|k: int| 0 <= k < keys_of(gs.drop_last()).len() && keys_of(
                gs.drop_last(),
            )[k] == t;
            assert(keys_of(gs)[k] == t);
        }
        if gs.last().0 == t {
            assert(keys_of(gs)[gs.len() - 1] == t);
        }
    }
}

/// The command tree and the dispatcher group operations alike: the keys of
/// the tree's tag groups are the dispatcher's group keys, in the same order,
/// so the tree has a tag level exactly when invocations are routed through one.
pub proof fn tree_and_dispatch_group_alike(ops: Seq<OperationView>)
    ensures
        keys_of(tag_groups(ops)) == group_keys(ops),
        uses_tag_groups(tag_groups(ops)) == dispatch_grouped(ops),
    decreases ops.len(),
{
    if ops.len() > 0 {
        tree_and_dispatch_group_alike(ops.drop_last());
        let prev = tag_groups(ops.drop_last());
        let t = first_tag(ops.last());
        lemma_key_position_found(prev, t);
        let k = key_position(prev, t);
        if k >= 0 {
            assert(keys_of(group_add(prev, t, (ops.len() - 1) as usize)) =~= keys_of(prev));
        } else {
            assert(keys_of(group_add(prev, t, (ops.len() - 1) as usize)) =~= keys_of(prev).push(t));
        }
    }
    assert(keys_of(tag_groups(ops)).len() == tag_groups(ops).len());
}

/// The number of operation indices held by the groups.
pub open spec fn group_total(gs: Seq<(Seq<char>, Seq<usize>)>) -> int
    decreases gs.len(),
{
    if gs.len() == 0 {
        0
    } else {
        group_total(gs.drop_last()) + gs.last().1.len()
    }
}

proof fn lemma_total_update(
    gs: Seq<(Seq<char>, Seq<usize>)>,
    k: int,
    g: (Seq<char>, Seq<usize>),
)
    requires
        0 <= k < gs.len(),
    ensures
        group_total(gs.update(k, g)) == group_total(gs) - gs[k].1.len() + g.1.len(),
    decreases gs.len(),
{
    if k < gs.len() - 1 {
        lemma_total_update(gs.drop_last(), k, g);
        assert(gs.update(k, g).drop_last() =~= gs.drop_last().update(k, g));
    } else {
        assert(gs.update(k, g).drop_last() =~= gs.drop_last());
    }
}

/// Operation `i` is held by the group of its first tag (or `default`).
pub open spec fn in_own_group(ops: Seq<OperationView>, i: int) -> bool {
    exists|g: int|
        0 <= g < tag_groups(ops).len() && tag_groups(ops)[g].0 == first_tag(ops[i])
            && #[trigger] tag_groups(ops)[g].1.contains(i as usize)
}

/// The command tree holds every operation: the tag groups hold as many
/// operation indices as there are operations, and each operation's index is
/// in the group of its first tag (or `default`).
pub proof fn tag_groups_cover_operations(ops: Seq<OperationView>)
    requires
        ops.len() <= usize::MAX,
    ensures
        group_total(tag_groups(ops)) == ops.len(),
        forall|i: int| 0 <= i < ops.len() ==> #[trigger] in_own_group(ops, i),
    decreases ops.len(),
{
    if ops.len() > 0 {
        let n = ops.len() - 1;
        let pre = ops.drop_last();
        tag_groups_cover_operations(pre);
        let prev = tag_groups(pre);
        let t = first_tag(ops.last());
        lemma_key_position_found(prev, t);
        let k = key_position(prev, t);
        let gs = tag_groups(ops);
        if k >= 0 {
            lemma_total_update(prev, k, (prev[k].0, prev[k].1.push(n as usize)));
        } else {
            assert(gs.drop_last() =~= prev);
        }
        assert forall|i: int| 0 <= i < ops.len() implies #[trigger] in_own_group(ops, i) by {
            if i < n {
                assert(pre[i] == ops[i]);
                assert(in_own_group(pre, i));
                let g = choose|g: int|
                    0 <= g < prev.len() && prev[g].0 == first_tag(pre[i]) && #[trigger] prev[g].1.contains(
                        i as usize,
                    );
                let j = choose|j: int| 0 <= j < prev[g].1.len() && prev[g].1[j] == i as usize;
                if k == g {
                    assert(gs[g].1[j] == i as usize);
                    assert(gs[g].0 == prev[g].0);
                } else {
                    assert(gs[g] == prev[g]);
                }
                assert(gs[g].1.contains(i as usize));
                assert(gs[g].0 == first_tag(ops[i]));
            } else {
                assert(ops[i] == ops.last());
                if k >= 0 {
                    assert(gs[k].1.last() == n as usize);
                    assert(gs[k].1.contains(n as usize));
                    assert(gs[k].0 == first_tag(ops[i]));
                } else {
                    let l = gs.len() - 1;
                    assert(gs[l].1[0] == n as usize);
                    assert(gs[l].1.contains(n as usize));
                    assert(gs[l].0 == first_tag(ops[i]));
                }
            }
        }
    }
}


// ── Dispatch ──────────────────────────────────────────────────────────────────

/// The subcommand path that reaches operation `i`: its group and command
/// name when the tag level is used, else its command name.
pub open spec fn route_of(ops: Seq<OperationView>, i: int) -> Seq<Seq<char>> {
    if dispatch_grouped(ops) {
        seq![group_name(ops[i]), ops[i].command_name]
    } else {
        seq![ops[i].command_name]
    }
}

proof fn lemma_first_named_finds(
    ops: Seq<OperationView>,
    grouped: bool,
    path: Seq<Seq<char>>,
    start: int,
    i: int,
)
    requires
        0 <= start <= i < ops.len(),
        names_op(ops[i], grouped, path),
    ensures
        first_named(ops, grouped, path, start) matches Some(k) && start <= k <= i && names_op(
            ops[k],
            grouped,
            path,
        ),
        (forall|j: int| start <= j < i ==> !#[trigger] names_op(ops[j], grouped, path))
            ==> first_named(ops, grouped, path, start) == Some(i),
    decreases i - start,
{
    if start < i && !names_op(ops[start], grouped, path) {
        lemma_first_named_finds(ops, grouped, path, start + 1, i);
    }
}

/// Invoking an operation's own route dispatches to that operation, or to an
/// earlier one that the same route names; to that operation itself when no
/// earlier one shares its route.
pub proof fn route_dispatches_to_operation(
    inv: InvocationView,
    config: DynamicCliConfigView,
    spec: ApiSpecView,
    i: int,
)
    requires
        spec.operations.len() <= usize::MAX,
        0 <= i < spec.operations.len(),
        inv.subcommands == route_of(spec.operations, i),
    ensures
        dispatched(inv, config, spec) is Some,
        dispatched(inv, config, spec)->0.operation <= i,
        names_op(
            spec.operations[dispatched(inv, config, spec)->0.operation as int],
            dispatch_grouped(spec.operations),
            inv.subcommands,
        ),
        (forall|j: int|
            0 <= j < i ==> !#[trigger] names_op(
                spec.operations[j],
                dispatch_grouped(spec.operations),
                inv.subcommands,
            )) ==> dispatched(inv, config, spec)->0.operation == i,
{
    let ops = spec.operations;
    let grouped = dispatch_grouped(ops);
    assert(names_op(ops[i], grouped, inv.subcommands));
    lemma_first_named_finds(ops, grouped, inv.subcommands, 0, i);
}


// ── Reading a spec ────────────────────────────────────────────────────────────

/// An operation's command name is the kebab-case of its id, and each of its
/// path parameters is required.
pub open spec fn op_consistent(op: OperationView) -> bool {
    &&& op.command_name == kebab(op.operation_id)
    &&& forall|j: int|
        0 <= j < op.parameters.len() && (#[trigger] op.parameters[j]).location == ParamIn::Path
            ==> op.parameters[j].required
}

/// Every operation of the sequence is consistent.
pub open spec fn all_consistent(ops: Seq<OperationView>) -> bool {
    forall|i: int| 0 <= i < ops.len() ==> op_consistent(#[trigger] ops[i])
}

proof fn lemma_params_required(merged: Seq<JsonValue>, root: JsonValue, version: SpecVersion)
    ensures
        forall|j: int|
            0 <= j < params_of(merged, root, version).0.len() && (#[trigger] params_of(
                merged,
                root,
                version,
            ).0[j]).location == ParamIn::Path ==> params_of(merged, root, version).0[j].required,
    decreases merged.len(),
{
    if merged.len() > 0 {
        lemma_params_required(merged.drop_last(), root, version);
        let prev = params_of(merged.drop_last(), root, version).0;
        let cur = params_of(merged, root, version).0;
        assert forall|j: int| 0 <= j < cur.len() && (#[trigger] cur[j]).location == ParamIn::Path implies cur[j].required by {
            if j < prev.len() {
                assert(cur[j] == prev[j]);
            }
        }
    }
}

proof fn lemma_operation_consistent(
    method: crate::spec::HttpMethod,
    path: Seq<char>,
    op: JsonValue,
    path_params: Seq<JsonValue>,
    root: JsonValue,
    version: SpecVersion,
)
    ensures
        op_consistent(operation_of(method, path, op, path_params, root, version)),
{
    let merged = match crate::json::array_of(field(op, "parameters"@)) {
        Some(a) => merged_params(path_params, a, root),
        None => path_params,
    };
    lemma_params_required(merged, root, version);
}

proof fn lemma_concat_consistent(a: Seq<OperationView>, b: Seq<OperationView>)
    requires
        all_consistent(a),
        all_consistent(b),
    ensures
        all_consistent(a + b),
{
    assert forall|i: int| 0 <= i < (a + b).len() implies op_consistent(#[trigger] (a + b)[i]) by {
        if i < a.len() {
            assert((a + b)[i] == a[i]);
        } else {
            assert((a + b)[i] == b[i - a.len()]);
        }
    }
}

proof fn lemma_op_at_consistent(
    name: Seq<char>,
    path: Seq<char>,
    item: JsonValue,
    root: JsonValue,
    version: SpecVersion,
)
    ensures
        all_consistent(op_at(name, path, item, root, version)),
{
    reveal(op_at);
    match field(item, name) {
        Some(op) => {
            lemma_operation_consistent(
                crate::spec::method_from_name(name),
                path,
                op,
                crate::spec::params_array(item),
                root,
                version,
            );
        },
        None => {},
    }
}

proof fn lemma_paths_consistent(
    entries: Seq<(String, JsonValue)>,
    root: JsonValue,
    version: SpecVersion,
)
    ensures
        all_consistent(paths_ops(entries, root, version)),
    decreases entries.len(),
{
    if entries.len() > 0 {
        lemma_paths_consistent(entries.drop_last(), root, version);
        let path = entries.last().0@;
        let item = entries.last().1;
        lemma_op_at_consistent("get"@, path, item, root, version);
        lemma_op_at_consistent("post"@, path, item, root, version);
        lemma_op_at_consistent("put"@, path, item, root, version);
        lemma_op_at_consistent("delete"@, path, item, root, version);
        lemma_op_at_consistent("patch"@, path, item, root, version);
        lemma_op_at_consistent("head"@, path, item, root, version);
        lemma_op_at_consistent("options"@, path, item, root, version);
        let a = op_at("get"@, path, item, root, version);
        let b = op_at("post"@, path, item, root, version);
        let c = op_at("put"@, path, item, root, version);
        let d = op_at("delete"@, path, item, root, version);
        let e = op_at("patch"@, path, item, root, version);
        let f = op_at("head"@, path, item, root, version);
        let g = op_at("options"@, path, item, root, version);
        lemma_concat_consistent(a, b);
        lemma_concat_consistent(a + b, c);
        lemma_concat_consistent(a + b + c, d);
        lemma_concat_consistent(a + b + c + d, e);
        lemma_concat_consistent(a + b + c + d + e, f);
        lemma_concat_consistent(a + b + c + d + e + f, g);
        lemma_concat_consistent(
            paths_ops(entries.drop_last(), root, version),
            path_item_ops(path, item, root, version),
        );
    }
}

/// Every spec that reads successfully has at least one server, and each of
/// its operations has the kebab-case of its operation id as command name and
/// only required path parameters.
pub proof fn parsed_spec_is_consistent(doc: JsonValue, source: Seq<char>)
    ensures
        parsed(doc, source) matches Ok(s) ==> s.servers.len() >= 1 && all_consistent(s.operations),
{
    match crate::json::object_of(field(doc, "paths"@)) {
        Some(entries) => {
            lemma_paths_consistent(entries, doc, SpecVersion::V2);
            lemma_paths_consistent(entries, doc, SpecVersion::V3);
        },
        None => {},
    }
    assert(all_consistent(operations_of(doc, SpecVersion::V2)));
    assert(all_consistent(operations_of(doc, SpecVersion::V3)));
}


/// The name and location that identify a parameter object (empty when absent).
pub open spec fn param_key(p: JsonValue) -> (Seq<char>, Seq<char>) {
    (
        or_text(str_field(p, "name"@), Seq::<char>::empty()),
        or_text(str_field(p, "in"@), Seq::<char>::empty()),
    )
}

proof fn lemma_without_key(ps: Seq<JsonValue>, name: Seq<char>, loc: Seq<char>, root: JsonValue)
    ensures
        forall|j: int|
            0 <= j < without_key(ps, name, loc, root).len() ==> !keyed_as(
                resolved(#[trigger] without_key(ps, name, loc, root)[j], root),
                name,
                loc,
            ),
    decreases ps.len(),
{
    if ps.len() > 0 {
        lemma_without_key(ps.drop_last(), name, loc, root);
        let r = without_key(ps.drop_last(), name, loc, root);
        let w = without_key(ps, name, loc, root);
        assert forall|j: int| 0 <= j < w.len() implies !keyed_as(resolved(#[trigger] w[j], root), name, loc) by {
            if j < r.len() {
                assert(w[j] == r[j]);
            }
        }
    }
}

/// An operation-level parameter overrides the path-level ones with the same
/// name and location: after merging it comes last, and no other merged
/// parameter has its name and location once its `$ref`, if any, is resolved.
pub proof fn operation_param_overrides(
    path_params: Seq<JsonValue>,
    op_params: Seq<JsonValue>,
    root: JsonValue,
)
    requires
        op_params.len() > 0,
    ensures
        merged_params(path_params, op_params, root).last() == resolved(op_params.last(), root),
        forall|j: int|
            0 <= j < merged_params(path_params, op_params, root).len() - 1 ==> !keyed_as(
                resolved(#[trigger] merged_params(path_params, op_params, root)[j], root),
                param_key(resolved(op_params.last(), root)).0,
                param_key(resolved(op_params.last(), root)).1,
            ),
{
    let acc = merged_params(path_params, op_params.drop_last(), root);
    let p = resolved(op_params.last(), root);
    let key = param_key(p);
    lemma_without_key(acc, key.0, key.1, root);
    let w = without_key(acc, key.0, key.1, root);
    let m = merged_params(path_params, op_params, root);
    assert(m == w.push(p));
    assert forall|j: int| 0 <= j < m.len() - 1 implies !keyed_as(resolved(#[trigger] m[j], root), key.0, key.1) by {
        assert(m[j] == w[j]);
    }
}

// ── Requests ──────────────────────────────────────────────────────────────────

/// No two pairs share a name.
pub open spec fn distinct_names(hs: Seq<(Seq<char>, Seq<char>)>) -> bool {
    forall|i: int, j: int| 0 <= i < j < hs.len() ==> #[trigger] hs[i].0 != #[trigger] hs[j].0
}

proof fn lemma_header_position(hs: Seq<(Seq<char>, Seq<char>)>, k: Seq<char>)
    ensures
        -1 <= header_position(hs, k) < hs.len(),
        header_position(hs, k) >= 0 ==> hs[header_position(hs, k)].0 == k,
        header_position(hs, k) < 0 ==> forall|m: int| 0 <= m < hs.len() ==> #[trigger] hs[m].0 != k,
    decreases hs.len(),
{
    if hs.len() > 0 {
        lemma_header_position(hs.drop_last(), k);
        if header_position(hs, k) < 0 {
            assert forall|m: int| 0 <= m < hs.len() implies #[trigger] hs[m].0 != k by {
                if m < hs.len() - 1 {
                    assert(hs[m] == hs.drop_last()[m]);
                }
            }
        }
    }
}

proof fn lemma_header_set_distinct(hs: Seq<(Seq<char>, Seq<char>)>, k: Seq<char>, v: Seq<char>)
    requires
        distinct_names(hs),
    ensures
        distinct_names(header_set(hs, k, v)),
{
    lemma_header_position(hs, k);
    let r = header_set(hs, k, v);
    let pos = header_position(hs, k);
    assert forall|i: int, j: int| 0 <= i < j < r.len() implies #[trigger] r[i].0 != #[trigger] r[j].0 by {
        if pos >= 0 {
            assert(r[i].0 == hs[i].0);
            assert(r[j].0 == hs[j].0);
        } else {
            if j < hs.len() {
                assert(r[i] == hs[i] && r[j] == hs[j]);
            } else {
                assert(r[j].0 == k);
                assert(r[i] == hs[i]);
            }
        }
    }
}

/// The header parameters of a request carry each header name at most once.
pub proof fn request_header_names_distinct(
    ps: Seq<ParameterView>,
    values: Seq<(Seq<char>, Seq<char>)>,
)
    ensures
        distinct_names(header_pairs(ps, values)),
    decreases ps.len(),
{
    if ps.len() > 0 {
        request_header_names_distinct(ps.drop_last(), values);
        let prev = header_pairs(ps.drop_last(), values);
        let p = ps.last();
        match crate::runtime::arg_value(values, p.cli_name) {
            Some(v) => if p.location == ParamIn::Header {
                lemma_header_set_distinct(prev, p.name, v);
            },
            None => {},
        }
    }
}

// ── Query parameters ──────────────────────────────────────────────────────────

/// Query parameter `i` of `ps` has a value under its CLI flag, and the pair
/// `(name, value)` is that parameter's spec name with its value.
pub open spec fn query_param_gives(
    ps: Seq<ParameterView>,
    values: Seq<(Seq<char>, Seq<char>)>,
    i: int,
    pair: (Seq<char>, Seq<char>),
) -> bool {
    &&& 0 <= i < ps.len()
    &&& ps[i].location == ParamIn::Query
    &&& arg_value(values, ps[i].cli_name) == Some(pair.1)
    &&& pair.0 == ps[i].name
}

/// The pair comes from some query parameter of `ps`.
pub open spec fn from_query_param(
    ps: Seq<ParameterView>,
    values: Seq<(Seq<char>, Seq<char>)>,
    pair: (Seq<char>, Seq<char>),
) -> bool {
    exists|i: int| #[trigger] query_param_gives(ps, values, i, pair)
}

proof fn lemma_query_pairs(ps: Seq<ParameterView>, values: Seq<(Seq<char>, Seq<char>)>)
    ensures
        forall|i: int|
            0 <= i < ps.len() && ps[i].location == ParamIn::Query && arg_value(
                values,
                ps[i].cli_name,
            ) is Some ==> crate::runtime::query_pairs(ps, values).contains(
                (ps[i].name, arg_value(values, ps[i].cli_name)->0),
            ),
        forall|k: int|
            0 <= k < crate::runtime::query_pairs(ps, values).len() ==> from_query_param(
                ps,
                values,
                #[trigger] crate::runtime::query_pairs(ps, values)[k],
            ),
    decreases ps.len(),
{
    if ps.len() > 0 {
        let pre = ps.drop_last();
        lemma_query_pairs(pre, values);
        let prev = crate::runtime::query_pairs(pre, values);
        let q = crate::runtime::query_pairs(ps, values);
        let n = ps.len() - 1;
        assert forall|i: int|
            0 <= i < ps.len() && ps[i].location == ParamIn::Query && arg_value(
                values,
                ps[i].cli_name,
            ) is Some implies q.contains((ps[i].name, arg_value(values, ps[i].cli_name)->0)) by {
            let pair = (ps[i].name, arg_value(values, ps[i].cli_name)->0);
            if i < n {
                assert(pre[i] == ps[i]);
                let k = choose|k: int| 0 <= k < prev.len() && prev[k] == pair;
                assert(q[k] == prev[k]);
            } else {
                assert(q[q.len() - 1] == pair);
            }
        }
        assert forall|k: int| 0 <= k < q.len() implies from_query_param(ps, values, #[trigger] q[k]) by {
            if k < prev.len() {
                assert(q[k] == prev[k]);
                assert(from_query_param(pre, values, prev[k]));
                let i = choose|i: int| query_param_gives(pre, values, i, prev[k]);
                assert(pre[i] == ps[i]);
                assert(query_param_gives(ps, values, i, q[k]));
            } else {
                assert(query_param_gives(ps, values, n, q[k]));
            }
        }
    }
}

/// A request's query holds, for every query parameter that has a value
/// under its CLI flag, the pair of the parameter's spec name (never its flag
/// name) and that value; and every pair in it is such a pair.
pub proof fn request_query_uses_spec_names(
    op: OperationView,
    values: Seq<(Seq<char>, Seq<char>)>,
    base_url: Seq<char>,
    token: Option<Seq<char>>,
)
    ensures
        forall|i: int|
            0 <= i < op.parameters.len() && op.parameters[i].location == ParamIn::Query
                && #[trigger] arg_value(values, op.parameters[i].cli_name) is Some
                ==> request_for(op, values, base_url, token).query.contains(
                (op.parameters[i].name, arg_value(values, op.parameters[i].cli_name)->0),
            ),
        forall|k: int|
            0 <= k < request_for(op, values, base_url, token).query.len() ==> from_query_param(
                op.parameters,
                values,
                #[trigger] request_for(op, values, base_url, token).query[k],
            ),
{
    lemma_query_pairs(op.parameters, values);
}

/// Header parameter `i` of `ps` has a value under its CLI flag, and the pair
/// is that parameter's spec name with its value.
pub open spec fn header_param_gives(
    ps: Seq<ParameterView>,
    values: Seq<(Seq<char>, Seq<char>)>,
    i: int,
    pair: (Seq<char>, Seq<char>),
) -> bool {
    &&& 0 <= i < ps.len()
    &&& ps[i].location == ParamIn::Header
    &&& arg_value(values, ps[i].cli_name) == Some(pair.1)
    &&& pair.0 == ps[i].name
}

/// The pair comes from some header parameter of `ps`.
pub open spec fn from_header_param(
    ps: Seq<ParameterView>,
    values: Seq<(Seq<char>, Seq<char>)>,
    pair: (Seq<char>, Seq<char>),
) -> bool {
    exists|i: int| #[trigger] header_param_gives(ps, values, i, pair)
}

/// Some pair is named `k`.
pub open spec fn has_name(hs: Seq<(Seq<char>, Seq<char>)>, k: Seq<char>) -> bool {
    exists|j: int| 0 <= j < hs.len() && #[trigger] hs[j].0 == k
}

proof fn lemma_header_pairs(ps: Seq<ParameterView>, values: Seq<(Seq<char>, Seq<char>)>)
    ensures
        forall|i: int|
            0 <= i < ps.len() && ps[i].location == ParamIn::Header && #[trigger] arg_value(
                values,
                ps[i].cli_name,
            ) is Some ==> has_name(header_pairs(ps, values), ps[i].name),
        forall|k: int|
            0 <= k < header_pairs(ps, values).len() ==> from_header_param(
                ps,
                values,
                #[trigger] header_pairs(ps, values)[k],
            ),
    decreases ps.len(),
{
    if ps.len() > 0 {
        let pre = ps.drop_last();
        lemma_header_pairs(pre, values);
        let prev = header_pairs(pre, values);
        let h = header_pairs(ps, values);
        let n = ps.len() - 1;
        let p = ps[n];
        lemma_header_position(prev, p.name);
        assert forall|i: int|
            0 <= i < ps.len() && ps[i].location == ParamIn::Header && #[trigger] arg_value(
                values,
                ps[i].cli_name,
            ) is Some implies has_name(h, ps[i].name) by {
            if i < n {
                assert(pre[i] == ps[i]);
                assert(has_name(prev, ps[i].name));
                let j = choose|j: int| 0 <= j < prev.len() && prev[j].0 == ps[i].name;
                assert(h[j].0 == ps[i].name);
            } else {
                let pos = header_position(prev, p.name);
                if pos >= 0 {
                    assert(h[pos].0 == p.name);
                } else {
                    assert(h[h.len() - 1].0 == p.name);
                }
            }
        }
        assert forall|k: int| 0 <= k < h.len() implies from_header_param(ps, values, #[trigger] h[k]) by {
            let pos = header_position(prev, p.name);
            let set_here = arg_value(values, p.cli_name) is Some && p.location == ParamIn::Header;
            if set_here && ((pos >= 0 && k == pos) || (pos < 0 && k == prev.len())) {
                assert(header_param_gives(ps, values, n, h[k]));
            } else {
                assert(k < prev.len());
                assert(h[k] == prev[k]);
                assert(from_header_param(pre, values, prev[k]));
                let i = choose|i: int| header_param_gives(pre, values, i, prev[k]);
                assert(pre[i] == ps[i]);
                assert(header_param_gives(ps, values, i, h[k]));
            }
        }
    }
}

/// A request carries a header for every header parameter that has a value,
/// named by the parameter's spec name; every header but the JSON content
/// type that goes with a body is such a parameter's name and value. The
/// request keeps the operation's method and the given token.
pub proof fn request_headers_use_spec_names(
    op: OperationView,
    values: Seq<(Seq<char>, Seq<char>)>,
    base_url: Seq<char>,
    token: Option<Seq<char>>,
)
    ensures
        forall|i: int|
            0 <= i < op.parameters.len() && op.parameters[i].location == ParamIn::Header
                && #[trigger] arg_value(values, op.parameters[i].cli_name) is Some ==> has_name(
                request_for(op, values, base_url, token).headers,
                op.parameters[i].name,
            ),
        forall|k: int|
            0 <= k < header_pairs(op.parameters, values).len() ==> from_header_param(
                op.parameters,
                values,
                #[trigger] request_for(op, values, base_url, token).headers[k],
            ),
        request_for(op, values, base_url, token).method == op.method,
        request_for(op, values, base_url, token).bearer_token == token,
{
    lemma_header_pairs(op.parameters, values);
    let h = header_pairs(op.parameters, values);
    let r = request_for(op, values, base_url, token).headers;
    assert forall|i: int|
        0 <= i < op.parameters.len() && op.parameters[i].location == ParamIn::Header
            && #[trigger] arg_value(values, op.parameters[i].cli_name) is Some implies has_name(
        r,
        op.parameters[i].name,
    ) by {
        let j = choose|j: int| 0 <= j < h.len() && h[j].0 == op.parameters[i].name;
        assert(r[j] == h[j]);
    }
    assert forall|k: int| 0 <= k < h.len() implies from_header_param(
        op.parameters,
        values,
        #[trigger] r[k],
    ) by {
        assert(r[k] == h[k]);
    }
}

// ── Base URL ──────────────────────────────────────────────────────────────────

/// A dispatched invocation is sent to the base URL given on the command
/// line; without one, to the configured override; without that, to the
/// spec's first server; and with no server at all, to `https://localhost`.
/// The token and output format follow the same order: command line first,
/// then the configuration.
pub proof fn dispatch_base_url_precedence(
    inv: InvocationView,
    config: DynamicCliConfigView,
    spec: ApiSpecView,
)
    ensures
        dispatched(inv, config, spec) matches Some(d) ==> {
            &&& inv.base_url matches Some(b) ==> d.base_url == b
            &&& (inv.base_url is None && config.base_url_override is Some) ==> d.base_url
                == config.base_url_override->0
            &&& (inv.base_url is None && config.base_url_override is None && spec.servers.len()
                > 0) ==> d.base_url == spec.servers[0]
            &&& (inv.base_url is None && config.base_url_override is None && spec.servers.len()
                == 0) ==> d.base_url == "https://localhost"@
            &&& inv.token is Some ==> d.token == inv.token
            &&& inv.token is None ==> d.token == config.auth_token
            &&& inv.output is None ==> d.format == config.output_format
            &&& inv.output == Some("raw"@) ==> d.format == OutputFormat::Raw
            &&& (inv.output is Some && inv.output != Some("raw"@)) ==> d.format
                == OutputFormat::Pretty
        },
{
}

// ── Arguments ─────────────────────────────────────────────────────────────────

/// An operation's subcommand has one argument per parameter, in order, then
/// `--body` when it takes a request body. A parameter's argument is read and
/// given by its CLI flag, is required exactly when the parameter is, accepts
/// only the parameter's enum values when it has them, and defaults to its
/// schema default; `--body` is required exactly when the body is.
pub proof fn op_arguments_follow_parameters(op: OperationView)
    ensures
        op_command(op).name == op.command_name,
        op_command(op).args.len() == op.parameters.len() + if op.request_body is Some {
            1int
        } else {
            0int
        },
        forall|j: int|
            0 <= j < op.parameters.len() ==> {
                &&& (#[trigger] op_command(op).args[j]).required == op.parameters[j].required
                &&& op_command(op).args[j].id == op.parameters[j].cli_name
                &&& op_command(op).args[j].long == op.parameters[j].cli_name
                &&& op_command(op).args[j].possible_values == op.parameters[j].schema.enum_values
                &&& op_command(op).args[j].default_value == op.parameters[j].schema.default
                &&& !op_command(op).args[j].global
            },
        op.request_body matches Some(rb) ==> {
            &&& op_command(op).args[op.parameters.len() as int].id == "body"@
            &&& op_command(op).args[op.parameters.len() as int].required == rb.required
        },
{
}

// ── Operations ────────────────────────────────────────────────────────────────

/// An operation read from its object keeps the object's `summary` and
/// `description` strings (none where the member is missing or not a
/// string), its method and path, the `operationId` string where there is
/// one, and the kebab-case of its id as command name.
pub proof fn operation_keeps_its_texts(
    method: HttpMethod,
    path: Seq<char>,
    op: JsonValue,
    path_params: Seq<JsonValue>,
    root: JsonValue,
    version: SpecVersion,
)
    ensures
        operation_of(method, path, op, path_params, root, version).summary == str_field(
            op,
            "summary"@,
        ),
        operation_of(method, path, op, path_params, root, version).description == str_field(
            op,
            "description"@,
        ),
        operation_of(method, path, op, path_params, root, version).method == method,
        operation_of(method, path, op, path_params, root, version).path == path,
        str_field(op, "operationId"@) matches Some(id) ==> operation_of(
            method,
            path,
            op,
            path_params,
            root,
            version,
        ).operation_id == id,
        operation_of(method, path, op, path_params, root, version).command_name == kebab(
            operation_of(method, path, op, path_params, root, version).operation_id,
        ),
{
}

/// A parameter read from its object keeps the object's `name` string (or is
/// called `param`) and `description` string; it sits in the path, a header
/// or a cookie exactly when `in` says so, and in the query otherwise; it is
/// required exactly when its object says `required: true` or it sits in the
/// path; and a v3 parameter without `schema` is a plain string.
pub proof fn parameter_follows_its_object(p: JsonValue, version: SpecVersion)
    ensures
        crate::spec::parameter_of(p, version).name == or_text(str_field(p, "name"@), "param"@),
        crate::spec::parameter_of(p, version).description == str_field(p, "description"@),
        (crate::spec::parameter_of(p, version).location == ParamIn::Path) == (str_field(p, "in"@)
            == Some("path"@)),
        (crate::spec::parameter_of(p, version).location == ParamIn::Header) == (str_field(
            p,
            "in"@,
        ) == Some("header"@)),
        (crate::spec::parameter_of(p, version).location == ParamIn::Cookie) == (str_field(
            p,
            "in"@,
        ) == Some("cookie"@)),
        crate::spec::parameter_of(p, version).required == (crate::json::bool_field(p, "required"@)
            == Some(true) || str_field(p, "in"@) == Some("path"@)),
        (version == SpecVersion::V3 && field(p, "schema"@) is None) ==> crate::spec::parameter_of(
            p,
            version,
        ).schema == crate::spec::default_schema(),
{
    reveal_strlit("path");
    reveal_strlit("header");
    reveal_strlit("cookie");
    reveal_strlit("query");
    assert("query"@ != "path"@) by {
        assert("query"@.len() != "path"@.len());
    }
    assert("query"@ != "header"@) by {
        assert("query"@[0] != "header"@[0]);
    }
    assert("query"@ != "cookie"@) by {
        assert("query"@[0] != "cookie"@[0]);
    }
    assert("path"@ != "header"@) by {
        assert("path"@[0] != "header"@[0]);
    }
    assert("path"@ != "cookie"@) by {
        assert("path"@[0] != "cookie"@[0]);
    }
    assert("header"@ != "cookie"@) by {
        assert("header"@[0] != "cookie"@[0]);
    }
}

// ── Responses ─────────────────────────────────────────────────────────────────

/// A rendered response is marked failed exactly when the call did not
/// succeed, whatever the format and body. Raw output is the body itself, and
/// so is pretty output of a body that is not JSON; only pretty output of a
/// JSON body can fail to render.
pub proof fn response_failure_follows_status(
    format: OutputFormat,
    success: bool,
    body: Seq<char>,
)
    ensures
        rendered(format, success, body) matches Ok(o) ==> o.1 == !success,
        format == OutputFormat::Raw ==> rendered(format, success, body) == Ok::<
            (Seq<char>, bool),
            Seq<char>,
        >((body, !success)),
        json_reading(body) is None ==> rendered(format, success, body) == Ok::<
            (Seq<char>, bool),
            Seq<char>,
        >((body, !success)),
{
}

// ── App names ─────────────────────────────────────────────────────────────────

/// The app name derived from any spec source is never empty.
pub proof fn app_name_never_empty(spec: Seq<char>)
    ensures
        app_name_for(spec).len() > 0,
{
    reveal_strlit("api");
}

} // verus!
