//! Workspaces and managed worktrees: names and paths derived from them, the checks a new
//! worktree must pass, and the branches it can start from.
use vstd::prelude::*;

use crate::api::CreateManagedWorktreeRequest;
use crate::error::{bad_request_str, AppError, AppErrorView};
use crate::sorting::{
    lemma_insert_stable_at, lemma_stable_sort_sorted, sorted_by, stable_sort,
    strict_weak_order,
};
use crate::ids::{is_lower_hex, new_uuid_simple};
use crate::paths::{join, parent, path_join, path_parent};
use crate::store::{
    basename_for_path, basename_spec, ManagedWorktree, NewManagedWorktree, SourceRef,
    SourceRefKind, Workspace, WorkspaceKind,
};
use crate::text::{
    chars_of, str_concat, contains, contains_seq, ends_with, is_prefix, is_suffix, lines, lines_spec,
    owned, push_char, starts_with, string_from_chars, trim, trim_spec, views_of,
};

verus! {

pub open spec fn is_ascii_alnum(c: char) -> bool {
    ('0' <= c && c <= '9') || ('a' <= c && c <= 'z') || ('A' <= c && c <= 'Z')
}

pub open spec fn ascii_lower(c: char) -> char {
    if 'A' <= c && c <= 'Z' {
        ((c as u32) + 32) as char
    } else {
        c
    }
}

fn char_is_ascii_alnum(c: char) -> (r: bool)
    ensures
        r == is_ascii_alnum(c),
{
    ('0' <= c && c <= '9') || ('a' <= c && c <= 'z') || ('A' <= c && c <= 'Z')
}

fn char_to_ascii_lower(c: char) -> (r: char)
    ensures
        r == ascii_lower(c),
{
    if 'A' <= c && c <= 'Z' {
        let b: u8 = (c as u32) as u8;
        (b + 32) as char
    } else {
        c
    }
}

// ---------------------------------------------------------------------------------------------
// Slugs and runtime names
// ---------------------------------------------------------------------------------------------

/// Slug built so far, and whether it ends in a dash that stands for separators.
pub open spec fn slug_state(s: Seq<char>) -> (Seq<char>, bool)
    decreases s.len(),
{
    if s.len() == 0 {
        (seq![], false)
    } else {
        let (slug, previous_dash) = slug_state(s.drop_last());
        let c = s.last();
        if is_ascii_alnum(c) {
            (slug.push(ascii_lower(c)), false)
        } else if !previous_dash {
            (slug.push('-'), true)
        } else {
            (slug, true)
        }
    }
}

pub open spec fn trim_dashes_start(s: Seq<char>) -> Seq<char>
    decreases s.len(),
{
    if s.len() > 0 && s[0] == '-' {
        trim_dashes_start(s.drop_first())
    } else {
        s
    }
}

pub open spec fn trim_dashes_end(s: Seq<char>) -> Seq<char>
    decreases s.len(),
{
    if s.len() > 0 && s.last() == '-' {
        trim_dashes_end(s.drop_last())
    } else {
        s
    }
}

/// A slug of `s`: ASCII letters and digits lowercased, each run of other characters one
/// dash, dashes at either end removed; `workspace` if nothing is left.
pub open spec fn slugify_spec(s: Seq<char>) -> Seq<char> {
    let t = trim_dashes_end(trim_dashes_start(slug_state(s).0));
    if t.len() == 0 {
        "workspace"@
    } else {
        t
    }
}

proof fn lemma_trim_dashes_start_skip(s: Seq<char>, i: int)
    requires
        0 <= i <= s.len(),
        forall|k: int| 0 <= k < i ==> s[k] == '-',
    ensures
        trim_dashes_start(s) == trim_dashes_start(s.skip(i)),
    decreases i,
{
    if i > 0 {
        assert(s.drop_first().skip(i - 1) =~= s.skip(i));
        lemma_trim_dashes_start_skip(s.drop_first(), i - 1);
    } else {
        assert(s.skip(0) =~= s);
    }
}

proof fn lemma_trim_dashes_end_take(s: Seq<char>, i: int)
    requires
        0 <= i <= s.len(),
        forall|k: int| i <= k < s.len() ==> s[k] == '-',
    ensures
        trim_dashes_end(s) == trim_dashes_end(s.take(i)),
    decreases s.len() - i,
{
    if i < s.len() {
        assert(s.drop_last().take(i) =~= s.take(i));
        lemma_trim_dashes_end_take(s.drop_last(), i);
    } else {
        assert(s.take(i) =~= s);
    }
}

/// `s` without leading and trailing dashes, as a string.
fn trim_dashes(x: &Vec<char>) -> (r: String)
    ensures
        r@ == trim_dashes_end(trim_dashes_start(x@)),
{
    let mut start: usize = 0;
    while start < x.len() && x[start] == '-'
        invariant
            start <= x@.len(),
            forall|k: int| 0 <= k < start ==> x@[k] == '-',
        decreases x@.len() - start,
    {
        start += 1;
    }
    proof {
        lemma_trim_dashes_start_skip(x@, start as int);
    }
    let ghost rest = x@.skip(start as int);
    let mut end: usize = x.len();
    while end > start && x[end - 1] == '-'
        invariant
            start <= end <= x@.len(),
            rest == x@.skip(start as int),
            forall|k: int| end <= k < x@.len() ==> x@[k] == '-',
        decreases end,
    {
        end -= 1;
    }
    proof {
        assert(trim_dashes_start(rest) == rest);
        lemma_trim_dashes_end_take(rest, end - start);
        assert(rest.take(end - start) =~= x@.subrange(start as int, end as int));
        assert(trim_dashes_end(x@.subrange(start as int, end as int)) == x@.subrange(
            start as int,
            end as int,
        ));
    }
    string_from_chars(x, start, end)
}

/// A path component made from free text: see [`slugify_spec`].
pub fn slugify(input: &str) -> (r: String)
    ensures
        r@ == slugify_spec(input@),
{
    let chars = chars_of(input);
    let mut slug: Vec<char> = Vec::new();
    let mut previous_dash = false;
    let mut i: usize = 0;
    while i < chars.len()
        invariant
            i <= chars@.len(),
            chars@ == input@,
            (slug@, previous_dash) == slug_state(chars@.take(i as int)),
        decreases chars@.len() - i,
    {
        proof {
            assert(chars@.take(i + 1).drop_last() =~= chars@.take(i as int));
        }
        let ch = chars[i];
        if char_is_ascii_alnum(ch) {
            slug.push(char_to_ascii_lower(ch));
            previous_dash = false;
        } else if !previous_dash {
            slug.push('-');
            previous_dash = true;
        }
        i += 1;
    }
    proof {
        assert(chars@.take(i as int) =~= input@);
    }
    let trimmed = trim_dashes(&slug);
    if trimmed.as_str().is_empty() {
        owned("workspace")
    } else {
        trimmed
    }
}

/// A character a slug may hold: a lowercase ASCII letter, a digit or a dash.
pub open spec fn is_slug_char(c: char) -> bool {
    ('0' <= c && c <= '9') || ('a' <= c && c <= 'z') || c == '-'
}

/// Slug characters only, and no two dashes in a row.
pub open spec fn slug_body(t: Seq<char>) -> bool {
    &&& forall|i: int| 0 <= i < t.len() ==> is_slug_char(#[trigger] t[i])
    &&& forall|i: int| 0 <= i < t.len() - 1 ==> !(#[trigger] t[i] == '-' && t[i + 1] == '-')
}

/// A well-formed slug: non-empty, slug characters only, no dash at either end and no two
/// dashes in a row.
pub open spec fn is_slug(t: Seq<char>) -> bool {
    &&& t.len() > 0
    &&& t[0] != '-'
    &&& t.last() != '-'
    &&& slug_body(t)
}

proof fn lemma_slug_state_body(s: Seq<char>)
    ensures
        slug_body(slug_state(s).0),
        slug_state(s).1 <==> (slug_state(s).0.len() > 0 && slug_state(s).0.last() == '-'),
    decreases s.len(),
{
    if s.len() > 0 {
        lemma_slug_state_body(s.drop_last());
        let (slug, previous_dash) = slug_state(s.drop_last());
        let c = s.last();
        let next = slug_state(s).0;
        if is_ascii_alnum(c) {
            assert(next == slug.push(ascii_lower(c)));
            assert(is_slug_char(ascii_lower(c)));
            assert forall|i: int| 0 <= i < next.len() implies is_slug_char(#[trigger] next[i]) by {
                if i < slug.len() {
                    assert(next[i] == slug[i]);
                }
            }
            assert forall|i: int| 0 <= i < next.len() - 1 implies !(#[trigger] next[i] == '-'
                && next[i + 1] == '-') by {
                assert(next[i] == slug[i]);
                if i + 1 < slug.len() {
                    assert(next[i + 1] == slug[i + 1]);
                }
            }
        } else if !previous_dash {
            assert(next == slug.push('-'));
            assert forall|i: int| 0 <= i < next.len() implies is_slug_char(#[trigger] next[i]) by {
                if i < slug.len() {
                    assert(next[i] == slug[i]);
                }
            }
            assert forall|i: int| 0 <= i < next.len() - 1 implies !(#[trigger] next[i] == '-'
                && next[i + 1] == '-') by {
                assert(next[i] == slug[i]);
                if i + 1 < slug.len() {
                    assert(next[i + 1] == slug[i + 1]);
                } else {
                    assert(slug.last() == slug[i]);
                }
            }
        }
    }
}

proof fn lemma_trim_dashes_start_shape(s: Seq<char>)
    ensures
        exists|k: int| 0 <= k <= s.len() && trim_dashes_start(s) == s.skip(k),
        trim_dashes_start(s).len() > 0 ==> trim_dashes_start(s)[0] != '-',
    decreases s.len(),
{
    if s.len() > 0 && s[0] == '-' {
        lemma_trim_dashes_start_shape(s.drop_first());
        let k = choose|k: int|
            0 <= k <= s.drop_first().len() && trim_dashes_start(s.drop_first()) == s.drop_first().skip(k);
        assert(s.drop_first().skip(k) =~= s.skip(k + 1));
    } else {
        assert(s.skip(0) =~= s);
    }
}

proof fn lemma_trim_dashes_end_shape(s: Seq<char>)
    ensures
        exists|k: int| 0 <= k <= s.len() && trim_dashes_end(s) == s.take(k),
        trim_dashes_end(s).len() > 0 ==> trim_dashes_end(s).last() != '-',
    decreases s.len(),
{
    if s.len() > 0 && s.last() == '-' {
        lemma_trim_dashes_end_shape(s.drop_last());
        let k = choose|k: int|
            0 <= k <= s.drop_last().len() && trim_dashes_end(s.drop_last()) == s.drop_last().take(k);
        assert(s.drop_last().take(k) =~= s.take(k));
    } else {
        assert(s.take(s.len() as int) =~= s);
    }
}

proof fn lemma_slug_body_subrange(t: Seq<char>, a: int, b: int)
    requires
        slug_body(t),
        0 <= a <= b <= t.len(),
    ensures
        slug_body(t.subrange(a, b)),
{
    let u = t.subrange(a, b);
    assert forall|i: int| 0 <= i < u.len() implies is_slug_char(#[trigger] u[i]) by {
        assert(u[i] == t[a + i]);
    }
    assert forall|i: int| 0 <= i < u.len() - 1 implies !(#[trigger] u[i] == '-' && u[i + 1]
        == '-') by {
        assert(u[i] == t[a + i] && u[i + 1] == t[a + i + 1]);
    }
}

/// Every slug is well formed: it is never empty, holds only lowercase ASCII letters, digits
/// and dashes, and has no dash at either end and no two dashes in a row.
pub proof fn lemma_slugify_well_formed(s: Seq<char>)
    ensures
        is_slug(slugify_spec(s)),
{
    let raw = slug_state(s).0;
    lemma_slug_state_body(s);
    lemma_trim_dashes_start_shape(raw);
    let front = trim_dashes_start(raw);
    let k = choose|k: int| 0 <= k <= raw.len() && front == raw.skip(k);
    assert(raw.skip(k) =~= raw.subrange(k, raw.len() as int));
    lemma_slug_body_subrange(raw, k, raw.len() as int);
    lemma_trim_dashes_end_shape(front);
    let t = trim_dashes_end(front);
    let m = choose|m: int| 0 <= m <= front.len() && t == front.take(m);
    assert(front.take(m) =~= front.subrange(0, m));
    lemma_slug_body_subrange(front, 0, m);
    if t.len() > 0 {
        assert(t[0] == front[0]);
    } else {
        reveal_strlit("workspace");
        let w = "workspace"@;
        assert forall|i: int| 0 <= i < w.len() implies is_slug_char(#[trigger] w[i]) by {}
    }
}

proof fn lemma_slug_state_of_body(t: Seq<char>)
    requires
        slug_body(t),
    ensures
        slug_state(t).0 == t,
        slug_state(t).1 <==> (t.len() > 0 && t.last() == '-'),
    decreases t.len(),
{
    if t.len() > 0 {
        let p = t.drop_last();
        assert(slug_body(p)) by {
            assert forall|i: int| 0 <= i < p.len() implies is_slug_char(#[trigger] p[i]) by {
                assert(p[i] == t[i]);
            }
            assert forall|i: int| 0 <= i < p.len() - 1 implies !(#[trigger] p[i] == '-' && p[i
                + 1] == '-') by {
                assert(p[i] == t[i] && p[i + 1] == t[i + 1]);
            }
        }
        lemma_slug_state_of_body(p);
        let c = t.last();
        assert(is_slug_char(t[t.len() - 1]));
        if c == '-' && p.len() > 0 {
            assert(!(t[t.len() - 2] == '-' && t[t.len() - 1] == '-'));
            assert(p.last() == t[t.len() - 2]);
        }
        assert(t =~= p.push(c));
    }
}

/// A well-formed slug is its own slug.
proof fn lemma_slug_fixed(t: Seq<char>)
    requires
        is_slug(t),
    ensures
        slugify_spec(t) == t,
{
    lemma_slug_state_of_body(t);
}

/// Slugging is idempotent: the slug of a slug is that slug.
pub proof fn lemma_slugify_idempotent(s: Seq<char>)
    ensures
        slugify_spec(slugify_spec(s)) == slugify_spec(s),
{
    lemma_slugify_well_formed(s);
    lemma_slug_fixed(slugify_spec(s));
}

/// The ASCII letters and digits of `s`, lowercased, in order.
pub open spec fn kept_alnum(s: Seq<char>) -> Seq<char>
    decreases s.len(),
{
    if s.len() == 0 {
        seq![]
    } else if is_ascii_alnum(s.last()) {
        kept_alnum(s.drop_last()).push(ascii_lower(s.last()))
    } else {
        kept_alnum(s.drop_last())
    }
}

/// `t` with its dashes left out.
pub open spec fn without_dashes(t: Seq<char>) -> Seq<char>
    decreases t.len(),
{
    if t.len() == 0 {
        seq![]
    } else if t.last() == '-' {
        without_dashes(t.drop_last())
    } else {
        without_dashes(t.drop_last()).push(t.last())
    }
}

proof fn lemma_without_dashes_push(t: Seq<char>, c: char)
    ensures
        without_dashes(t.push(c)) == if c == '-' {
            without_dashes(t)
        } else {
            without_dashes(t).push(c)
        },
{
    assert(t.push(c).drop_last() =~= t);
}

proof fn lemma_without_dashes_add(a: Seq<char>, b: Seq<char>)
    ensures
        without_dashes(a + b) == without_dashes(a) + without_dashes(b),
    decreases b.len(),
{
    if b.len() == 0 {
        assert(a + b =~= a);
        assert(without_dashes(a) + seq![] =~= without_dashes(a));
    } else {
        lemma_without_dashes_add(a, b.drop_last());
        assert((a + b).drop_last() =~= a + b.drop_last());
        assert((a + b).last() == b.last());
        if b.last() != '-' {
            assert(without_dashes(a) + without_dashes(b.drop_last()).push(b.last()) =~= (
            without_dashes(a) + without_dashes(b.drop_last())).push(b.last()));
        }
    }
}

proof fn lemma_slug_state_letters(s: Seq<char>)
    ensures
        without_dashes(slug_state(s).0) == kept_alnum(s),
    decreases s.len(),
{
    if s.len() > 0 {
        lemma_slug_state_letters(s.drop_last());
        let (slug, previous_dash) = slug_state(s.drop_last());
        let c = s.last();
        if is_ascii_alnum(c) {
            lemma_without_dashes_push(slug, ascii_lower(c));
        } else if !previous_dash {
            lemma_without_dashes_push(slug, '-');
        }
    }
}

proof fn lemma_trim_start_letters(t: Seq<char>)
    ensures
        without_dashes(trim_dashes_start(t)) == without_dashes(t),
    decreases t.len(),
{
    if t.len() > 0 && t[0] == '-' {
        lemma_trim_start_letters(t.drop_first());
        assert(t =~= seq!['-'] + t.drop_first());
        lemma_without_dashes_add(seq!['-'], t.drop_first());
        let dash = seq!['-'];
        assert(dash.last() == '-');
        assert(dash.drop_last() =~= Seq::<char>::empty());
        assert(without_dashes(Seq::<char>::empty()) == Seq::<char>::empty());
        assert(without_dashes(dash) == without_dashes(dash.drop_last()));
        assert(Seq::<char>::empty() + without_dashes(t.drop_first()) =~= without_dashes(t.drop_first()));
    }
}

proof fn lemma_trim_end_letters(t: Seq<char>)
    ensures
        without_dashes(trim_dashes_end(t)) == without_dashes(t),
    decreases t.len(),
{
    if t.len() > 0 && t.last() == '-' {
        lemma_trim_end_letters(t.drop_last());
    }
}

proof fn lemma_without_dashes_nonempty(t: Seq<char>, i: int)
    requires
        0 <= i < t.len(),
        t[i] != '-',
    ensures
        without_dashes(t).len() > 0,
    decreases t.len(),
{
    if t.last() == '-' {
        assert(t.drop_last()[i] == t[i]);
        lemma_without_dashes_nonempty(t.drop_last(), i);
    }
}

/// A slug keeps the ASCII letters and digits of its text, lowercased and in order, and
/// nothing else but dashes; a text with no ASCII letter or digit gets `workspace`.
pub proof fn lemma_slug_keeps_letters_and_digits(s: Seq<char>)
    ensures
        kept_alnum(s).len() == 0 ==> slugify_spec(s) == "workspace"@,
        kept_alnum(s).len() > 0 ==> without_dashes(slugify_spec(s)) == kept_alnum(s),
{
    let raw = slug_state(s).0;
    lemma_slug_state_letters(s);
    lemma_trim_start_letters(raw);
    let front = trim_dashes_start(raw);
    lemma_trim_end_letters(front);
    let t = trim_dashes_end(front);
    if t.len() > 0 {
        lemma_trim_dashes_start_shape(raw);
        lemma_trim_dashes_end_shape(front);
        let m = choose|m: int| 0 <= m <= front.len() && t == front.take(m);
        assert(t[0] == front[0]);
        lemma_without_dashes_nonempty(t, 0);
    }
}

/// Every runtime name base is non-empty and holds only lowercase ASCII letters, digits,
/// dashes and underscores.
pub proof fn lemma_sanitized_name_chars(s: Seq<char>)
    ensures
        sanitize_spec(s).len() > 0,
        forall|i: int|
            0 <= i < sanitize_spec(s).len() ==> {
                let c = #[trigger] sanitize_spec(s)[i];
                is_slug_char(c) || c == '_'
            },
{
    lemma_sanitize_chars(s);
    if sanitize_chars(s).len() == 0 {
        reveal_strlit("session");
        let w = "session"@;
        assert forall|i: int| 0 <= i < w.len() implies is_slug_char(#[trigger] w[i]) by {}
    }
}

proof fn lemma_sanitize_chars_kept(t: Seq<char>)
    requires
        forall|i: int|
            0 <= i < t.len() ==> {
                let c = #[trigger] t[i];
                is_slug_char(c) || c == '_'
            },
    ensures
        sanitize_chars(t) == t,
    decreases t.len(),
{
    if t.len() > 0 {
        let p = t.drop_last();
        assert forall|i: int| 0 <= i < p.len() implies {
            let c = #[trigger] p[i];
            is_slug_char(c) || c == '_'
        } by {
            assert(p[i] == t[i]);
        }
        lemma_sanitize_chars_kept(p);
        let c = t[t.len() - 1];
        assert(is_slug_char(c) || c == '_');
        assert(t =~= p.push(t.last()));
    }
}

/// Sanitizing a runtime name base again changes nothing.
pub proof fn lemma_sanitize_idempotent(s: Seq<char>)
    ensures
        sanitize_spec(sanitize_spec(s)) == sanitize_spec(s),
{
    lemma_sanitized_name_chars(s);
    lemma_sanitize_chars_kept(sanitize_spec(s));
}

proof fn lemma_sanitize_chars(s: Seq<char>)
    ensures
        forall|i: int|
            0 <= i < sanitize_chars(s).len() ==> {
                let c = #[trigger] sanitize_chars(s)[i];
                is_slug_char(c) || c == '_'
            },
    decreases s.len(),
{
    if s.len() > 0 {
        lemma_sanitize_chars(s.drop_last());
        let rest = sanitize_chars(s.drop_last());
        let c = s.last();
        if is_ascii_alnum(c) || c == '-' || c == '_' {
            let next = rest.push(ascii_lower(c));
            assert forall|i: int| 0 <= i < next.len() implies {
                let d = #[trigger] next[i];
                is_slug_char(d) || d == '_'
            } by {
                if i < rest.len() {
                    assert(next[i] == rest[i]);
                }
            }
        }
    }
}

/// The characters kept in a runtime name: ASCII letters, digits, `-` and `_`, lowercased.
pub open spec fn sanitize_chars(s: Seq<char>) -> Seq<char>
    decreases s.len(),
{
    if s.len() == 0 {
        seq![]
    } else {
        let c = s.last();
        let rest = sanitize_chars(s.drop_last());
        if is_ascii_alnum(c) || c == '-' || c == '_' {
            rest.push(ascii_lower(c))
        } else {
            rest
        }
    }
}

/// A tmux-safe session name: the kept characters, or `session` if none is kept.
pub open spec fn sanitize_spec(s: Seq<char>) -> Seq<char> {
    if sanitize_chars(s).len() == 0 {
        "session"@
    } else {
        sanitize_chars(s)
    }
}

pub fn sanitize_runtime_name(input: &str) -> (r: String)
    ensures
        r@ == sanitize_spec(input@),
{
    let chars = chars_of(input);
    let mut out = String::new();
    let mut i: usize = 0;
    while i < chars.len()
        invariant
            i <= chars@.len(),
            chars@ == input@,
            out@ == sanitize_chars(chars@.take(i as int)),
        decreases chars@.len() - i,
    {
        let ch = chars[i];
        proof {
            assert(chars@.take(i + 1).drop_last() =~= chars@.take(i as int));
        }
        if char_is_ascii_alnum(ch) || ch == '-' || ch == '_' {
            push_char(&mut out, char_to_ascii_lower(ch));
        }
        i += 1;
    }
    proof {
        assert(chars@.take(i as int) =~= input@);
    }
    if out.as_str().is_empty() {
        owned("session")
    } else {
        out
    }
}

/// The base of a new runtime name: the sanitized requested name, or `session` when no name,
/// or only white space, was requested.
pub open spec fn runtime_base_spec(name: Option<Seq<char>>) -> Seq<char> {
    match name {
        Some(n) => if trim_spec(n).len() > 0 {
            sanitize_spec(n)
        } else {
            "session"@
        },
        None => "session"@,
    }
}

pub fn runtime_base_name(name: Option<&str>) -> (r: String)
    ensures
        r@ == runtime_base_spec(
            match name {
                Some(n) => Some(n@),
                None => None,
            },
        ),
{
    match name {
        Some(n) => {
            let t = trim(n);
            if !t.as_str().is_empty() {
                sanitize_runtime_name(n)
            } else {
                owned("session")
            }
        },
        None => owned("session"),
    }
}

/// A fresh tmux session name: the base, a dash, and the first eight hex digits of a random
/// UUID.
pub fn new_runtime_name(name: Option<&str>) -> (r: String)
    ensures
        exists|suffix: Seq<char>|
            suffix.len() == 8 && (forall|i: int| 0 <= i < 8 ==> is_lower_hex(#[trigger] suffix[i]))
                && r@ == runtime_base_spec(
                match name {
                    Some(n) => Some(n@),
                    None => None,
                },
            ) + "-"@ + suffix,
{
    let base = runtime_base_name(name);
    let id = new_uuid_simple();
    let id_chars = chars_of(id.as_str());
    let suffix = string_from_chars(&id_chars, 0, 8);
    let mut r = base;
    r.append("-");
    r.append(suffix.as_str());
    proof {
        assert forall|i: int| 0 <= i < 8 implies is_lower_hex(#[trigger] suffix@[i]) by {
            assert(suffix@[i] == id@[i]);
        }
    }
    r
}

// ---------------------------------------------------------------------------------------------
// Workspace roots and managed worktree paths
// ---------------------------------------------------------------------------------------------

/// The directory a managed worktree for `branch_name` lives in:
/// `<parent of root>/.amux-worktrees/<slug of root's name>/<slug of branch>`.
pub open spec fn managed_worktree_path_spec(root: Seq<char>, branch_name: Seq<char>) -> Result<
    Seq<char>,
    AppErrorView,
> {
    match path_parent(root) {
        None => Err(
            AppErrorView::BadRequest {
                code: "invalid_request"@,
                message: "workspace root must have a parent directory for worktree storage"@,
            },
        ),
        Some(p) => Ok(
            path_join(
                path_join(path_join(p, ".amux-worktrees"@), slugify_spec(basename_spec(root))),
                slugify_spec(branch_name),
            ),
        ),
    }
}

pub fn managed_worktree_path(workspace: &Workspace, branch_name: &str) -> (r: Result<
    String,
    AppError,
>)
    ensures
        match r {
            Ok(p) => managed_worktree_path_spec(workspace.root_path@, branch_name@) == Ok::<
                Seq<char>,
                AppErrorView,
            >(p@),
            Err(e) => managed_worktree_path_spec(workspace.root_path@, branch_name@) == Err::<
                Seq<char>,
                AppErrorView,
            >(e@),
        },
{
    let root = workspace.root_path.as_str();
    let workspace_parent = match parent(root) {
        Some(p) => p,
        None => {
            return Err(
                bad_request_str("workspace root must have a parent directory for worktree storage"),
            );
        },
    };
    let workspace_slug = slugify(basename_for_path(root).as_str());
    let branch_slug = slugify(branch_name);
    let base = join(workspace_parent.as_str(), ".amux-worktrees");
    let with_workspace = join(base.as_str(), workspace_slug.as_str());
    Ok(join(with_workspace.as_str(), branch_slug.as_str()))
}

/// The root path a registration asks for, trimmed; refused when blank.
pub fn workspace_root_input(raw_root: &str) -> (r: Result<String, AppError>)
    ensures
        trim_spec(raw_root@).len() == 0 ==> (r matches Err(e) && e@ == (AppErrorView::BadRequest {
            code: "invalid_request"@,
            message: "root_path is required"@,
        })),
        trim_spec(raw_root@).len() > 0 ==> (r matches Ok(t) && t@ == trim_spec(raw_root@)),
{
    let trimmed = trim(raw_root);
    if trimmed.as_str().is_empty() {
        return Err(bad_request_str("root_path is required"));
    }
    Ok(trimmed)
}

/// A registered root must be a directory.
pub fn require_directory(is_dir: bool) -> (r: Result<(), AppError>)
    ensures
        is_dir ==> r is Ok,
        !is_dir ==> (r matches Err(e) && e@ == (AppErrorView::BadRequest {
            code: "invalid_request"@,
            message: "workspace root_path must resolve to a directory"@,
        })),
{
    if is_dir {
        Ok(())
    } else {
        Err(bad_request_str("workspace root_path must resolve to a directory"))
    }
}

/// The root and kind of a workspace: the enclosing git top level if there is one (a git
/// workspace), else the canonical directory itself.
pub fn classify_workspace_root(canonical: String, git_top_level: Option<String>) -> (r: (
    String,
    WorkspaceKind,
))
    ensures
        match git_top_level {
            Some(g) => r.0@ == g@ && r.1 == WorkspaceKind::Git,
            None => r.0@ == canonical@ && r.1 == WorkspaceKind::Plain,
        },
{
    match git_top_level {
        Some(g) => (g, WorkspaceKind::Git),
        None => (canonical, WorkspaceKind::Plain),
    }
}

/// The name a registered workspace gets: the requested one, else the root's base name.
pub fn workspace_display_name(name: Option<String>, resolved_root: &str) -> (r: String)
    ensures
        match name {
            Some(n) => r@ == n@,
            None => r@ == basename_spec(resolved_root@),
        },
{
    match name {
        Some(n) => n,
        None => basename_for_path(resolved_root),
    }
}

/// Managed worktrees and worktree sessions need a git workspace.
pub fn ensure_git_workspace(workspace: &Workspace) -> (r: Result<(), AppError>)
    ensures
        workspace.kind == WorkspaceKind::Git ==> r is Ok,
        workspace.kind != WorkspaceKind::Git ==> (r matches Err(e) && e@ == (
        AppErrorView::BadRequest {
            code: "invalid_request"@,
            message: "managed worktrees and worktree sessions are only supported for git workspaces"@,
        })),
{
    if workspace.kind == WorkspaceKind::Git {
        return Ok(());
    }
    Err(
        bad_request_str(
            "managed worktrees and worktree sessions are only supported for git workspaces",
        ),
    )
}

// ---------------------------------------------------------------------------------------------
// Source refs
// ---------------------------------------------------------------------------------------------

/// `str::split_once` on a character: the text before its first occurrence and after it.
pub open spec fn split_once_spec(s: Seq<char>, c: char) -> Option<(Seq<char>, Seq<char>)>
    decreases s.len(),
{
    if s.len() == 0 {
        None
    } else if s[0] == c {
        Some((seq![], s.drop_first()))
    } else {
        match split_once_spec(s.drop_first(), c) {
            Some((a, b)) => Some((seq![s[0]] + a, b)),
            None => None,
        }
    }
}

proof fn lemma_split_once_at(s: Seq<char>, c: char, i: int)
    requires
        0 <= i <= s.len(),
        forall|k: int| 0 <= k < i ==> s[k] != c,
    ensures
        i < s.len() && s[i] == c ==> split_once_spec(s, c) == Some((s.take(i), s.skip(i + 1))),
        i == s.len() ==> split_once_spec(s, c) is None,
    decreases i,
{
    if i > 0 {
        let t = s.drop_first();
        assert forall|k: int| 0 <= k < i - 1 implies t[k] != c by {
            assert(t[k] == s[k + 1]);
        }
        lemma_split_once_at(t, c, i - 1);
        if i < s.len() && s[i] == c {
            assert(t[i - 1] == s[i]);
            assert(seq![s[0]] + t.take(i - 1) =~= s.take(i));
            assert(t.skip(i) =~= s.skip(i + 1));
        }
    } else {
        if s.len() > 0 && s[0] == c {
            assert(s.take(0) =~= Seq::<char>::empty());
            assert(s.skip(1) =~= s.drop_first());
        }
    }
}

/// The source ref a `for-each-ref --format=%(refname:short)|%(refname)` line names: none
/// without a `|` or for a symbolic `.../HEAD`; a local branch when the full name is under
/// `refs/heads/`, else a remote-tracking branch.
pub open spec fn source_ref_of_line(line: Seq<char>) -> Option<(Seq<char>, SourceRefKind)> {
    match split_once_spec(line, '|') {
        None => None,
        Some((short, full)) => if is_suffix("/HEAD"@, full) {
            None
        } else if is_prefix("refs/heads/"@, full) {
            Some((short, SourceRefKind::LocalBranch))
        } else {
            Some((short, SourceRefKind::RemoteTrackingBranch))
        },
    }
}

pub open spec fn source_refs_in(lines: Seq<Seq<char>>) -> Seq<(Seq<char>, SourceRefKind)>
    decreases lines.len(),
{
    if lines.len() == 0 {
        seq![]
    } else {
        let rest = source_refs_in(lines.drop_last());
        match source_ref_of_line(lines.last()) {
            Some(r) => rest.push(r),
            None => rest,
        }
    }
}

/// Lexicographic order of character sequences, which is the byte order of their UTF-8
/// encodings that `str`'s `Ord` uses.
pub open spec fn lex_lt(a: Seq<char>, b: Seq<char>) -> bool
    decreases a.len(),
{
    if a.len() == 0 {
        b.len() > 0
    } else if b.len() == 0 {
        false
    } else if a[0] != b[0] {
        a[0] < b[0]
    } else {
        lex_lt(a.drop_first(), b.drop_first())
    }
}

proof fn lemma_lex_lt_irreflexive(a: Seq<char>)
    ensures
        !lex_lt(a, a),
    decreases a.len(),
{
    if a.len() > 0 {
        lemma_lex_lt_irreflexive(a.drop_first());
    }
}

proof fn lemma_lex_lt_transitive(a: Seq<char>, b: Seq<char>, c: Seq<char>)
    requires
        lex_lt(a, b),
        lex_lt(b, c),
    ensures
        lex_lt(a, c),
    decreases a.len(),
{
    if a.len() > 0 && b.len() > 0 && c.len() > 0 && a[0] == b[0] && b[0] == c[0] {
        lemma_lex_lt_transitive(a.drop_first(), b.drop_first(), c.drop_first());
    }
}

proof fn lemma_lex_lt_total(a: Seq<char>, b: Seq<char>)
    ensures
        lex_lt(a, b) || a == b || lex_lt(b, a),
    decreases a.len(),
{
    if a.len() > 0 && b.len() > 0 && a[0] == b[0] {
        lemma_lex_lt_total(a.drop_first(), b.drop_first());
        if a.drop_first() == b.drop_first() {
            assert(a =~= seq![a[0]] + a.drop_first());
            assert(b =~= seq![b[0]] + b.drop_first());
        }
    } else if a.len() == 0 && b.len() == 0 {
        assert(a =~= b);
    }
}

/// Ordering source refs by name is a strict weak order.
proof fn lemma_name_before_order()
    ensures
        strict_weak_order(|a: (Seq<char>, SourceRefKind), b: (Seq<char>, SourceRefKind)| name_before(a, b)),
{
    let before = |a: (Seq<char>, SourceRefKind), b: (Seq<char>, SourceRefKind)| name_before(a, b);
    assert forall|a: (Seq<char>, SourceRefKind)| !#[trigger] before(a, a) by {
        lemma_lex_lt_irreflexive(a.0);
    }
    assert forall|a: (Seq<char>, SourceRefKind), b: (Seq<char>, SourceRefKind)|
        #[trigger] before(a, b) implies !before(b, a) by {
        if before(b, a) {
            lemma_lex_lt_transitive(a.0, b.0, a.0);
            lemma_lex_lt_irreflexive(a.0);
        }
    }
    assert forall|a: (Seq<char>, SourceRefKind), b: (Seq<char>, SourceRefKind), c: (Seq<char>, SourceRefKind)|
        #![trigger before(a, c), before(a, b)]
        before(a, c) implies before(a, b) || before(b, c) by {
        lemma_lex_lt_total(a.0, b.0);
        if lex_lt(b.0, a.0) {
            lemma_lex_lt_transitive(b.0, a.0, c.0);
        }
    }
}

/// The source refs of a listing come out sorted by name, and they are exactly the refs its
/// lines hold (symbolic `HEAD` refs and lines without a `|` left out), each once per line.
pub proof fn lemma_source_refs_sorted(stdout: Seq<char>)
    ensures
        sorted_by(source_refs_spec(stdout), |a: (Seq<char>, SourceRefKind), b: (Seq<char>, SourceRefKind)| name_before(a, b)),
        source_refs_spec(stdout).to_multiset() =~= source_refs_in(lines_spec(stdout)).to_multiset(),
{
    lemma_name_before_order();
    lemma_stable_sort_sorted(
        source_refs_in(lines_spec(stdout)),
        |a: (Seq<char>, SourceRefKind), b: (Seq<char>, SourceRefKind)| name_before(a, b),
    );
}

/// `a < b` for strings.
pub fn str_lt(a: &str, b: &str) -> (r: bool)
    ensures
        r == lex_lt(a@, b@),
{
    let x = chars_of(a);
    let y = chars_of(b);
    let mut i: usize = 0;
    proof {
        assert(x@.skip(0) =~= x@);
        assert(y@.skip(0) =~= y@);
    }
    while i < x.len() && i < y.len()
        invariant
            i <= x@.len(),
            i <= y@.len(),
            x@ == a@,
            y@ == b@,
            lex_lt(a@, b@) == lex_lt(x@.skip(i as int), y@.skip(i as int)),
        decreases x@.len() - i,
    {
        let ghost xs = x@.skip(i as int);
        let ghost ys = y@.skip(i as int);
        proof {
            assert(xs[0] == x@[i as int]);
            assert(ys[0] == y@[i as int]);
            assert(xs.drop_first() =~= x@.skip(i + 1));
            assert(ys.drop_first() =~= y@.skip(i + 1));
        }
        if x[i] != y[i] {
            return x[i] < y[i];
        }
        i += 1;
    }
    proof {
        assert(x@.skip(i as int).len() == x@.len() - i);
        assert(y@.skip(i as int).len() == y@.len() - i);
    }
    i == x.len() && i < y.len()
}

pub open spec fn name_before(a: (Seq<char>, SourceRefKind), b: (Seq<char>, SourceRefKind)) -> bool {
    lex_lt(a.0, b.0)
}

/// The source refs of a `for-each-ref` listing, sorted by name, stably.
pub open spec fn source_refs_spec(stdout: Seq<char>) -> Seq<(Seq<char>, SourceRefKind)> {
    stable_sort(source_refs_in(lines_spec(stdout)), |a, b| name_before(a, b))
}

pub open spec fn source_refs_view(v: Seq<SourceRef>) -> Seq<(Seq<char>, SourceRefKind)> {
    v.map_values(|r: SourceRef| (r.name@, r.kind))
}

/// The source ref of one listing line.
pub fn parse_source_ref_line(line: &str) -> (r: Option<SourceRef>)
    ensures
        match r {
            Some(x) => source_ref_of_line(line@) == Some((x.name@, x.kind)),
            None => source_ref_of_line(line@) is None,
        },
{
    let chars = chars_of(line);
    let mut i: usize = 0;
    while i < chars.len() && chars[i] != '|'
        invariant
            i <= chars@.len(),
            forall|k: int| 0 <= k < i ==> chars@[k] != '|',
        decreases chars@.len() - i,
    {
        i += 1;
    }
    proof {
        lemma_split_once_at(line@, '|', i as int);
    }
    if i == chars.len() {
        return None;
    }
    let short_name = string_from_chars(&chars, 0, i);
    let full_name = string_from_chars(&chars, i + 1, chars.len());
    proof {
        assert(chars@.take(i as int) =~= short_name@);
        assert(chars@.skip(i + 1) =~= full_name@);
    }
    if ends_with(full_name.as_str(), "/HEAD") {
        return None;
    }
    let kind = if starts_with(full_name.as_str(), "refs/heads/") {
        SourceRefKind::LocalBranch
    } else {
        SourceRefKind::RemoteTrackingBranch
    };
    Some(SourceRef { name: short_name, kind })
}

/// The enclosing repository's top level that `git rev-parse --show-toplevel` printed: none
/// when the command failed (the directory is not inside a repository), else its output
/// trimmed.
pub fn git_top_level_output(succeeded: bool, stdout: &str) -> (r: Option<String>)
    ensures
        !succeeded ==> r is None,
        succeeded ==> (r matches Some(t) && t@ == trim_spec(stdout@)),
{
    if !succeeded {
        return None;
    }
    Some(trim(stdout))
}

/// A git command that exited with failure: "git {command} failed: {stderr, trimmed}".
pub fn git_command_failure(command: &str, stderr: &str) -> (r: AppError)
    ensures
        r@ == AppErrorView::Runtime("git "@ + command@ + " failed: "@ + trim_spec(stderr@)),
{
    let mut m = owned("git ");
    m.append(command);
    m.append(" failed: ");
    let t = trim(stderr);
    m.append(t.as_str());
    AppError::Runtime(m)
}

/// The branches a managed worktree can start from, read from
/// `git for-each-ref --format=%(refname:short)|%(refname) refs/heads refs/remotes`.
pub fn parse_source_refs(stdout: &str) -> (r: Vec<SourceRef>)
    ensures
        source_refs_view(r@) == source_refs_spec(stdout@),
{
    let all = lines(stdout);
    let ghost ls = lines_spec(stdout@);
    let ghost before_fn = |a: (Seq<char>, SourceRefKind), b: (Seq<char>, SourceRefKind)|
        name_before(a, b);
    let mut out: Vec<SourceRef> = Vec::new();
    let mut i: usize = 0;
    while i < all.len()
        invariant
            i <= all@.len(),
            views_of(all@) == ls,
            before_fn == (|a: (Seq<char>, SourceRefKind), b: (Seq<char>, SourceRefKind)|
                name_before(a, b)),
            source_refs_view(out@) == stable_sort(source_refs_in(ls.take(i as int)), before_fn),
        decreases all@.len() - i,
    {
        proof {
            assert(ls.take(i + 1).drop_last() =~= ls.take(i as int));
            assert(ls.take(i + 1).last() == all@[i as int]@);
        }
        match parse_source_ref_line(all[i].as_str()) {
            Some(x) => {
                let ghost sorted = source_refs_view(out@);
                let ghost xv = (x.name@, x.kind);
                let mut j = out.len();
                while j > 0 && str_lt(x.name.as_str(), out[j - 1].name.as_str())
                    invariant
                        j <= out@.len(),
                        sorted == source_refs_view(out@),
                        xv == (x.name@, x.kind),
                        forall|k: int| j <= k < sorted.len() ==> name_before(xv, #[trigger] sorted[k]),
                    decreases j,
                {
                    j -= 1;
                }
                proof {
                    if j > 0 {
                        assert(sorted[j - 1] == (out@[j - 1].name@, out@[j - 1].kind));
                    }
                    assert forall|k: int| j <= k < sorted.len() implies before_fn(
                        xv,
                        #[trigger] sorted[k],
                    ) by {}
                    lemma_insert_stable_at(sorted, xv, before_fn, j as int);
                }
                out.insert(j, x);
                proof {
                    assert(source_refs_view(out@) =~= sorted.take(j as int).push(xv) + sorted.skip(
                        j as int,
                    ));
                    let src = source_refs_in(ls.take(i + 1));
                    assert(src.drop_last() =~= source_refs_in(ls.take(i as int)));
                    assert(src.last() == xv);
                }
            },
            None => {},
        }
        i += 1;
    }
    proof {
        assert(ls.take(i as int) =~= ls);
    }
    out
}

// ---------------------------------------------------------------------------------------------
// Managed worktree requests
// ---------------------------------------------------------------------------------------------

/// What a managed worktree request resolves to before git runs.
#[derive(Debug, Clone, PartialEq, Eq)]
pub struct WorktreePlan {
    pub source_ref: String,
    pub branch_name: String,
    pub path: String,
}

/// The checks a new managed worktree passes before anything touches the disk: a git
/// workspace, a source ref and a branch name that are not blank (both trimmed), and a
/// worktree path.
pub open spec fn worktree_plan_spec(
    kind: WorkspaceKind,
    root: Seq<char>,
    source_ref: Seq<char>,
    branch_name: Seq<char>,
) -> Result<(Seq<char>, Seq<char>, Seq<char>), AppErrorView> {
    if kind != WorkspaceKind::Git {
        Err(
            AppErrorView::BadRequest {
                code: "invalid_request"@,
                message: "managed worktrees and worktree sessions are only supported for git workspaces"@,
            },
        )
    } else if trim_spec(source_ref).len() == 0 {
        Err(
            AppErrorView::BadRequest {
                code: "invalid_request"@,
                message: "source_ref is required"@,
            },
        )
    } else if trim_spec(branch_name).len() == 0 {
        Err(
            AppErrorView::BadRequest {
                code: "invalid_request"@,
                message: "branch_name is required"@,
            },
        )
    } else {
        match managed_worktree_path_spec(root, trim_spec(branch_name)) {
            Err(e) => Err(e),
            Ok(path) => Ok((trim_spec(source_ref), trim_spec(branch_name), path)),
        }
    }
}

pub fn plan_managed_worktree(workspace: &Workspace, request: &CreateManagedWorktreeRequest) -> (r:
    Result<WorktreePlan, AppError>)
    ensures
        match r {
            Ok(p) => worktree_plan_spec(
                workspace.kind,
                workspace.root_path@,
                request.source_ref@,
                request.branch_name@,
            ) == Ok::<(Seq<char>, Seq<char>, Seq<char>), AppErrorView>(
                (p.source_ref@, p.branch_name@, p.path@),
            ),
            Err(e) => worktree_plan_spec(
                workspace.kind,
                workspace.root_path@,
                request.source_ref@,
                request.branch_name@,
            ) == Err::<(Seq<char>, Seq<char>, Seq<char>), AppErrorView>(e@),
        },
{
    match ensure_git_workspace(workspace) {
        Ok(()) => {},
        Err(e) => {
            return Err(e);
        },
    }
    let source_ref = trim(request.source_ref.as_str());
    if source_ref.as_str().is_empty() {
        return Err(bad_request_str("source_ref is required"));
    }
    let branch_name = trim(request.branch_name.as_str());
    if branch_name.as_str().is_empty() {
        return Err(bad_request_str("branch_name is required"));
    }
    let path = match managed_worktree_path(workspace, branch_name.as_str()) {
        Ok(p) => p,
        Err(e) => {
            return Err(e);
        },
    };
    Ok(WorktreePlan { source_ref, branch_name, path })
}

/// A managed worktree request passes its checks exactly for a git workspace with a source
/// ref and a branch name that are not blank and a branch whose worktree path can be formed;
/// it then resolves to the trimmed source ref, the trimmed branch name and that path.
pub proof fn lemma_worktree_request_resolves(
    kind: WorkspaceKind,
    root: Seq<char>,
    source_ref: Seq<char>,
    branch_name: Seq<char>,
)
    ensures
        worktree_plan_spec(kind, root, source_ref, branch_name) is Ok <==> {
            &&& kind == WorkspaceKind::Git
            &&& trim_spec(source_ref).len() > 0
            &&& trim_spec(branch_name).len() > 0
            &&& managed_worktree_path_spec(root, trim_spec(branch_name)) is Ok
        },
        worktree_plan_spec(kind, root, source_ref, branch_name) is Ok ==> worktree_plan_spec(
            kind,
            root,
            source_ref,
            branch_name,
        )->Ok_0 == (
            trim_spec(source_ref),
            trim_spec(branch_name),
            managed_worktree_path_spec(root, trim_spec(branch_name))->Ok_0,
        ),
{
}

/// Two managed-worktree requests of one workspace whose branch names trim alike resolve to
/// the same worktree path, whatever their source refs: once the first request has made
/// that path, [`check_worktree_path_free`] refuses the second with
/// `managed_worktree_path_exists` before git or the store are touched.
pub proof fn lemma_same_branch_same_path(
    kind: WorkspaceKind,
    root: Seq<char>,
    first_source: Seq<char>,
    first_branch: Seq<char>,
    second_source: Seq<char>,
    second_branch: Seq<char>,
)
    requires
        trim_spec(first_branch) == trim_spec(second_branch),
        worktree_plan_spec(kind, root, first_source, first_branch) is Ok,
        worktree_plan_spec(kind, root, second_source, second_branch) is Ok,
    ensures
        worktree_plan_spec(kind, root, first_source, first_branch)->Ok_0.2 == worktree_plan_spec(
            kind,
            root,
            second_source,
            second_branch,
        )->Ok_0.2,
{
}

/// The record of the worktree that `plan` makes in `workspace`: the workspace's id and the
/// plan's branch name, source ref and path.
pub fn new_managed_worktree(workspace: &Workspace, plan: WorktreePlan) -> (r: NewManagedWorktree)
    ensures
        r.workspace_id@ == workspace.id@,
        r.branch_name@ == plan.branch_name@,
        r.source_ref@ == plan.source_ref@,
        r.path@ == plan.path@,
{
    NewManagedWorktree {
        workspace_id: workspace.id.clone(),
        branch_name: plan.branch_name,
        source_ref: plan.source_ref,
        path: plan.path,
    }
}

/// A worktree path that exists already is a `managed_worktree_path_exists` conflict.
pub fn check_worktree_path_free(path: &str, exists: bool) -> (r: Result<(), AppError>)
    ensures
        !exists ==> r is Ok,
        exists ==> (r matches Err(e) && e@ == (AppErrorView::Conflict {
            code: "managed_worktree_path_exists"@,
            message: "managed worktree path already exists: "@ + path@,
        })),
{
    if exists {
        Err(
            AppError::conflict(
                owned("managed_worktree_path_exists"),
                str_concat("managed worktree path already exists: ", path),
            ),
        )
    } else {
        Ok(())
    }
}

/// A branch that a managed worktree of the workspace uses already is a
/// `managed_branch_exists` conflict.
pub fn check_branch_unused(existing: &Vec<ManagedWorktree>, branch_name: &str) -> (r: Result<
    (),
    AppError,
>)
    ensures
        (forall|k: int| 0 <= k < existing@.len() ==> #[trigger] existing@[k].branch_name@ != branch_name@)
            ==> r is Ok,
        (exists|k: int| 0 <= k < existing@.len() && #[trigger] existing@[k].branch_name@ == branch_name@)
            ==> (r matches Err(e) && e@ == (AppErrorView::Conflict {
            code: "managed_branch_exists"@,
            message: "managed worktree branch already exists in workspace: "@ + branch_name@,
        })),
{
    let mut i: usize = 0;
    while i < existing.len()
        invariant
            i <= existing@.len(),
            forall|k: int| 0 <= k < i ==> #[trigger] existing@[k].branch_name@ != branch_name@,
        decreases existing@.len() - i,
    {
        if crate::text::str_eq(existing[i].branch_name.as_str(), branch_name) {
            return Err(
                AppError::conflict(
                    owned("managed_branch_exists"),
                    str_concat("managed worktree branch already exists in workspace: ", branch_name),
                ),
            );
        }
        i += 1;
    }
    Ok(())
}

/// What a failed `git worktree add` means: a `branch_name_conflict` when git says the branch
/// already exists, else a refused request carrying git's trimmed standard error.
pub fn worktree_add_failure(stderr: &str, branch_name: &str) -> (r: AppError)
    ensures
        contains_seq(trim_spec(stderr@), "already exists"@) ==> r@ == (AppErrorView::Conflict {
            code: "branch_name_conflict"@,
            message: "branch_name is not new: "@ + branch_name@,
        }),
        !contains_seq(trim_spec(stderr@), "already exists"@) ==> r@ == (AppErrorView::BadRequest {
            code: "invalid_request"@,
            message: "failed creating managed worktree: "@ + trim_spec(stderr@),
        }),
{
    let trimmed = trim(stderr);
    if contains(trimmed.as_str(), "already exists") {
        return AppError::conflict(
            owned("branch_name_conflict"),
            str_concat("branch_name is not new: ", branch_name),
        );
    }
    AppError::bad_request(str_concat("failed creating managed worktree: ", trimmed.as_str()))
}

} // verus!
