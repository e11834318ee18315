//! Properties that relate several operations of the library, proved over
//! the spec functions that the operations' contracts use.

use vstd::prelude::*;

use crate::config::{PromptTemplate, TemplateVariable};
use crate::paths::{
    dir_prefix, file_name_spec, join_spec, last_component, last_index, lemma_last_index, name_stem,
    temp_sibling_spec,
};
use crate::storage::{copy_plan_spec, trash_name_spec};
use crate::template::{
    all_parse, count_some, has_key, lemma_name_index, missing_required, missing_text, name_index,
    register_all, registered_after, template_parses, unique_names, ContextValue,
};
use crate::text::{decimal, digit_char, digit_value, digits_value, is_digit, lemma_decimal_digits};

verus! {

proof fn lemma_digit(d: nat)
    requires
        d < 10,
    ensures
        digit_value(digit_char(d)) == d,
{
}

/// The decimal text of a number denotes that number.
pub proof fn lemma_decimal_value(n: nat)
    ensures
        digits_value(decimal(n)) == n,
    decreases n,
{
    if n < 10 {
        lemma_digit(n);
        assert(decimal(n).drop_last() =~= Seq::<char>::empty());
        assert(decimal(n).last() == digit_char(n));
        assert(digits_value(decimal(n).drop_last()) == 0);
    } else {
        lemma_decimal_value(n / 10);
        lemma_digit(n % 10);
        assert(decimal(n).drop_last() =~= decimal(n / 10));
        assert(decimal(n).last() == digit_char(n % 10));
        assert(digits_value(decimal(n)) == digits_value(decimal(n / 10)) * 10 + digit_value(
            digit_char(n % 10),
        ));
        assert((n / 10) * 10 + n % 10 == n) by (nonlinear_arith);
    }
}

/// Trash names taken at different seconds differ, whatever files they
/// name: a file trashed twice, a second or more apart, never takes the
/// place of its first copy. (Two moves within one second may collide.)
pub proof fn law_trash_names_differ_across_seconds(
    t1: nat,
    t2: nat,
    n1: Seq<char>,
    n2: Seq<char>,
    e1: Option<Seq<char>>,
    e2: Option<Seq<char>>,
)
    requires
        t1 != t2,
    ensures
        trash_name_spec(t1, n1, e1) != trash_name_spec(t2, n2, e2),
{
    let a = decimal(t1);
    let b = decimal(t2);
    let s1 = trash_name_spec(t1, n1, e1);
    let s2 = trash_name_spec(t2, n2, e2);
    lemma_decimal_digits(t1);
    lemma_decimal_digits(t2);
    lemma_decimal_value(t1);
    lemma_decimal_value(t2);
    if s1 == s2 {
        if a.len() < b.len() {
            assert(s1[a.len() as int] == '.');
            assert(s2[a.len() as int] == b[a.len() as int]);
            assert(is_digit(b[a.len() as int]));
        } else if b.len() < a.len() {
            assert(s2[b.len() as int] == '.');
            assert(s1[b.len() as int] == a[b.len() as int]);
            assert(is_digit(a[b.len() as int]));
        } else {
            assert(a =~= s1.subrange(0, a.len() as int));
            assert(b =~= s2.subrange(0, b.len() as int));
        }
    }
}

/// An atomic write goes through a temporary file in the target's own
/// directory that is never the target itself, so the target is only ever
/// replaced whole, by the rename.
pub proof fn law_temp_file_is_a_distinct_sibling(p: Seq<char>, stamp: nat)
    requires
        file_name_spec(p) is Some,
    ensures
        temp_sibling_spec(p, stamp) != p,
        temp_sibling_spec(p, stamp).subrange(0, dir_prefix(p).len() as int) == dir_prefix(p),
{
    let t = temp_sibling_spec(p, stamp);
    let d = dir_prefix(p);
    let lc = last_component(p);
    let stem = name_stem(lc);
    lemma_last_index(p, '/');
    lemma_last_index(lc, '.');
    reveal_strlit(".tmp.");
    assert(p =~= d + lc);
    let tail = stem + ".tmp."@ + decimal(stamp);
    assert(t =~= d + tail);
    assert(t.subrange(0, d.len() as int) =~= d);
    if t == p {
        assert(tail =~= t.subrange(d.len() as int, t.len() as int));
        assert(lc =~= p.subrange(d.len() as int, p.len() as int));
        assert(tail == lc);
        let k = last_index(lc, '.');
        if k <= 0 {
            assert(tail.len() > lc.len());
        } else {
            assert(stem.len() == k);
            assert(tail[k + 4] == '.');
            assert(lc[k + 4] == '.');
        }
    }
}

/// Restoring a backup copies each of its files back from exactly where
/// taking it put that file, to exactly where it came from: taking a backup of
/// a root's files and restoring it into a cleared root puts back the same
/// files at the same paths.
pub proof fn law_backup_restore_round_trip(root: Seq<char>, dir: Seq<char>, files: Seq<String>)
    ensures
        copy_plan_spec(dir, root, files).len() == files.len(),
        forall|i: int|
            0 <= i < files.len() ==> (#[trigger] copy_plan_spec(dir, root, files)[i]).1 == join_spec(
                root,
                files[i]@,
            ),
        forall|i: int|
            0 <= i < files.len() ==> (#[trigger] copy_plan_spec(dir, root, files)[i]).0
                == copy_plan_spec(root, dir, files)[i].1 && copy_plan_spec(dir, root, files)[i].1
                == copy_plan_spec(root, dir, files)[i].0,
{
}

/// A render that lacks a value for exactly one required variable fails
/// naming that variable.
pub proof fn law_missing_required_variable_is_named(
    decl: Seq<TemplateVariable>,
    vars: Seq<(String, ContextValue)>,
    k: int,
)
    requires
        0 <= k < decl.len(),
        decl[k].required,
        !has_key(vars, decl[k].name@),
        forall|j: int| 0 <= j < decl.len() && j != k ==> !missing_required(decl, vars, j),
    ensures
        exists|i: int| 0 <= i < decl.len() && missing_required(decl, vars, i),
        forall|i: int|
            0 <= i < decl.len() && missing_required(decl, vars, i) && (forall|j: int|
                0 <= j < i ==> !missing_required(decl, vars, j)) ==> missing_text(decl[i].name@)
                == missing_text(decl[k].name@),
{
    assert(missing_required(decl, vars, k));
}

/// A template whose syntax is rejected leaves the registry as it was, so a
/// name that was not registered stays unregistered.
pub proof fn law_rejected_template_stays_absent(
    before: Seq<PromptTemplate>,
    after: Seq<PromptTemplate>,
    t: PromptTemplate,
)
    requires
        !template_parses(t.content@),
        after == before,
        name_index(before, t.name@) == -1,
    ensures
        forall|i: int| 0 <= i < after.len() ==> after[i].name@ != t.name@,
{
    lemma_name_index(before, t.name@);
}

/// Loading a directory in which one file reads as a valid template and
/// another cannot be read as a template at all registers the valid one,
/// counts one, and registers nothing for the other, in either order.
pub proof fn law_loading_skips_unreadable_files(
    s: Seq<PromptTemplate>,
    t: PromptTemplate,
    valid_first: bool,
)
    requires
        template_parses(t.content@),
        unique_names(s),
    ensures
        ({
            let loaded = if valid_first {
                seq![Some(t), None]
            } else {
                seq![None, Some(t)]
            };
            &&& all_parse(loaded)
            &&& count_some(loaded) == 1
            &&& register_all(s, loaded) == registered_after(s, t)
            &&& name_index(register_all(s, loaded), t.name@) >= 0
            &&& register_all(s, loaded)[name_index(register_all(s, loaded), t.name@)] == t
        }),
{
    let loaded = if valid_first {
        seq![Some(t), None]
    } else {
        seq![None, Some(t)]
    };
    assert(loaded.drop_last().drop_last() =~= Seq::<Option<PromptTemplate>>::empty());
    assert(register_all(s, loaded.drop_last().drop_last()) == s);
    assert(count_some(loaded.drop_last().drop_last()) == 0);
    let r = registered_after(s, t);
    if valid_first {
        assert(loaded.drop_last().last() == Some(t));
        assert(register_all(s, loaded.drop_last()) == r);
        assert(count_some(loaded.drop_last()) == 1);
        assert(loaded.last() is None);
    } else {
        assert(loaded.drop_last().last() is None);
        assert(register_all(s, loaded.drop_last()) == s);
        assert(count_some(loaded.drop_last()) == 0);
        assert(loaded.last() == Some(t));
    }
    assert(register_all(s, loaded) == r);
    assert(count_some(loaded) == 1);
    assert(all_parse(loaded));
    lemma_name_index(s, t.name@);
    let k = name_index(s, t.name@);
    if k >= 0 {
        assert forall|i: int, j: int| 0 <= i < r.len() && 0 <= j < r.len() && i != j implies r[i].name@
            != r[j].name@ by {
            if i != k && j != k {
                assert(r[i] == s[i] && r[j] == s[j]);
            } else if i == k {
                assert(r[j] == s[j]);
            } else {
                assert(r[i] == s[i]);
            }
        }
        lemma_name_index(r, t.name@);
        assert(r[k].name@ == t.name@);
        assert(r[k] == t);
    } else {
        assert forall|i: int, j: int| 0 <= i < r.len() && 0 <= j < r.len() && i != j implies r[i].name@
            != r[j].name@ by {
            if i < s.len() && j < s.len() {
                assert(r[i] == s[i] && r[j] == s[j]);
            } else if i < s.len() {
                assert(r[i] == s[i]);
            } else {
                assert(r[j] == s[j]);
            }
        }
        lemma_name_index(r, t.name@);
        assert(r[s.len() as int].name@ == t.name@);
    }
}

} // verus!
