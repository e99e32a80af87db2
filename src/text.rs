//! The rewrite of import statements in source text.
use vstd::prelude::*;

use crate::error::RenameError;
use crate::pattern::{
    compile, is_literal_char, is_literal_pattern, occurs_at, regex_accepts, replace_all,
    replace_literal,
};

verus! {

/// The underscore form of one character of a package name.
pub open spec fn underscore_char(c: char) -> char {
    if c == '-' {
        '_'
    } else {
        c
    }
}

/// The underscore form of a package name: every `-` becomes `_`.
pub open spec fn underscored(name: Seq<char>) -> Seq<char> {
    name.map_values(|c: char| underscore_char(c))
}

/// A character that can stand in an identifier of an import path.
pub open spec fn is_ident_char(c: char) -> bool {
    ('a' <= c <= 'z') || ('A' <= c <= 'Z') || ('0' <= c <= '9') || c == '_'
}

pub open spec fn is_ident(s: Seq<char>) -> bool {
    forall|i: int| 0 <= i < s.len() ==> #[trigger] is_ident_char(s[i])
}

/// `use <name>::`, the opening of an import of a path under `name`.
pub open spec fn path_import(name: Seq<char>) -> Seq<char> {
    seq!['u', 's', 'e', ' '] + name + seq![':', ':']
}

/// `use <name> as`, the opening of an import of `name` under another name.
pub open spec fn alias_import(name: Seq<char>) -> Seq<char> {
    seq!['u', 's', 'e', ' '] + name + seq![' ', 'a', 's']
}

/// The source text after both rewrites, for identifiers already in
/// underscore form.
pub open spec fn rewrite_imports(source: Seq<char>, old_id: Seq<char>, new_id: Seq<char>) -> Seq<
    char,
> {
    replace_literal(
        replace_literal(source, path_import(old_id), path_import(new_id)),
        alias_import(old_id),
        alias_import(new_id),
    )
}

/// The two names can be turned into identifiers.
pub open spec fn names_are_idents(old_name: Seq<char>, new_name: Seq<char>) -> bool {
    is_ident(underscored(old_name)) && is_ident(underscored(new_name))
}

/// Replacing `-` by `_` literally is the underscore form.
proof fn lemma_replace_dash(s: Seq<char>)
    ensures
        replace_literal(s, seq!['-'], seq!['_']) == underscored(s),
    decreases s.len(),
{
    if s.len() > 0 {
        let rest = s.subrange(1, s.len() as int);
        lemma_replace_dash(rest);
        assert(underscored(s) =~= seq![underscore_char(s[0])] + underscored(rest));
        if s.subrange(0, 1) == seq!['-'] {
            assert(s[0] == s.subrange(0, 1)[0]);
        } else {
            assert(s.subrange(0, 1) =~= seq![s[0]]);
        }
    } else {
        assert(underscored(s) =~= s);
    }
}

proof fn lemma_ident_is_literal(id: Seq<char>)
    requires
        is_ident(id),
    ensures
        is_literal_pattern(path_import(id)),
        is_literal_pattern(alias_import(id)),
        forall|i: int| 0 <= i < path_import(id).len() ==> path_import(id)[i] != '$',
        forall|i: int| 0 <= i < alias_import(id).len() ==> alias_import(id)[i] != '$',
{
    let p = path_import(id);
    let a = alias_import(id);
    assert forall|i: int| 0 <= i < p.len() implies is_literal_char(#[trigger] p[i]) && p[i] != '$' by {
        if 4 <= i < 4 + id.len() {
            assert(p[i] == id[i - 4]);
            assert(is_ident_char(id[i - 4]));
        }
    }
    assert forall|i: int| 0 <= i < a.len() implies is_literal_char(#[trigger] a[i]) && a[i] != '$' by {
        if 4 <= i < 4 + id.len() {
            assert(a[i] == id[i - 4]);
            assert(is_ident_char(id[i - 4]));
        }
    }
}

/// Text in which the pattern does not occur is left as it is.
proof fn lemma_replace_absent(s: Seq<char>, p: Seq<char>, r: Seq<char>)
    requires
        forall|i: int| !occurs_at(s, p, i),
    ensures
        replace_literal(s, p, r) == s,
    decreases s.len(),
{
    if p.len() != 0 && s.len() >= p.len() {
        assert(!occurs_at(s, p, 0));
        let rest = s.subrange(1, s.len() as int);
        assert forall|i: int| !occurs_at(rest, p, i) by {
            if occurs_at(rest, p, i) {
                assert(s.subrange(i + 1, i + 1 + p.len()) =~= rest.subrange(i, i + p.len()));
                assert(occurs_at(s, p, i + 1));
            }
        }
        lemma_replace_absent(rest, p, r);
        assert(s =~= seq![s[0]] + rest);
    }
}

/// The first occurrence of the pattern is replaced, and the scan goes on
/// after it.
proof fn lemma_replace_first(a: Seq<char>, p: Seq<char>, b: Seq<char>, r: Seq<char>)
    requires
        p.len() > 0,
        forall|i: int| 0 <= i < a.len() ==> !occurs_at(a + p, p, i),
    ensures
        replace_literal(a + p + b, p, r) == a + r + replace_literal(b, p, r),
    decreases a.len(),
{
    let s = a + p + b;
    if a.len() == 0 {
        assert(s =~= p + b);
        assert(s.subrange(0, p.len() as int) =~= p);
        assert(s.subrange(p.len() as int, s.len() as int) =~= b);
        assert(a + r + replace_literal(b, p, r) =~= r + replace_literal(b, p, r));
    } else {
        assert(!occurs_at(a + p, p, 0));
        assert((a + p).subrange(0, p.len() as int) =~= s.subrange(0, p.len() as int));
        let a1 = a.subrange(1, a.len() as int);
        assert forall|i: int| 0 <= i < a1.len() implies !occurs_at(a1 + p, p, i) by {
            assert(!occurs_at(a + p, p, i + 1));
            assert((a + p).subrange(i + 1, i + 1 + p.len()) =~= (a1 + p).subrange(i, i + p.len()));
        }
        lemma_replace_first(a1, p, b, r);
        assert(s.subrange(1, s.len() as int) =~= a1 + p + b);
        assert(a + r + replace_literal(b, p, r) =~= seq![s[0]] + (a1 + r + replace_literal(b, p, r)));
    }
}

/// An import of a path under the old identifier is rewritten to the new
/// identifier: where `use old::` first occurs after `before`, the path
/// rewrite keeps `before` as it is, puts `use new::` in its place and goes on
/// with the rest.
pub proof fn law_path_import_rewritten(
    before: Seq<char>,
    after: Seq<char>,
    old_id: Seq<char>,
    new_id: Seq<char>,
)
    requires
        forall|i: int|
            0 <= i < before.len() ==> !occurs_at(before + path_import(old_id), path_import(old_id), i),
    ensures
        replace_literal(before + path_import(old_id) + after, path_import(old_id), path_import(new_id))
            == before + path_import(new_id) + replace_literal(
            after,
            path_import(old_id),
            path_import(new_id),
        ),
{
    lemma_replace_first(before, path_import(old_id), after, path_import(new_id));
}

/// An import of the old identifier under another name is rewritten to the
/// new identifier: where `use old as` first occurs after `before`, the alias
/// rewrite keeps `before` as it is, puts `use new as` in its place and goes
/// on with the rest.
pub proof fn law_alias_import_rewritten(
    before: Seq<char>,
    after: Seq<char>,
    old_id: Seq<char>,
    new_id: Seq<char>,
)
    requires
        forall|i: int|
            0 <= i < before.len() ==> !occurs_at(before + alias_import(old_id), alias_import(old_id), i),
    ensures
        replace_literal(before + alias_import(old_id) + after, alias_import(old_id), alias_import(new_id))
            == before + alias_import(new_id) + replace_literal(
            after,
            alias_import(old_id),
            alias_import(new_id),
        ),
{
    lemma_replace_first(before, alias_import(old_id), after, alias_import(new_id));
}

/// Source text that holds neither `use old::` nor `use old as` comes out of
/// the rewrite byte for byte as it went in.
pub proof fn law_unrelated_source_kept(source: Seq<char>, old_id: Seq<char>, new_id: Seq<char>)
    requires
        forall|i: int| !occurs_at(source, path_import(old_id), i),
        forall|i: int| !occurs_at(source, alias_import(old_id), i),
    ensures
        rewrite_imports(source, old_id, new_id) == source,
{
    lemma_replace_absent(source, path_import(old_id), path_import(new_id));
    lemma_replace_absent(source, alias_import(old_id), alias_import(new_id));
}

/// The underscore form holds no `-`, keeps every other character in place,
/// leaves a name without `-` as it is, and so is idempotent.
pub proof fn law_underscore_form(name: Seq<char>)
    ensures
        underscored(name).len() == name.len(),
        forall|i: int| 0 <= i < name.len() ==> underscored(name)[i] != '-',
        forall|i: int| 0 <= i < name.len() && name[i] != '-' ==> underscored(name)[i] == name[i],
        (forall|i: int| 0 <= i < name.len() ==> name[i] != '-') ==> underscored(name) == name,
        underscored(underscored(name)) == underscored(name),
{
    if forall|i: int| 0 <= i < name.len() ==> name[i] != '-' {
        assert(underscored(name) =~= name);
    }
    assert(underscored(underscored(name)) =~= underscored(name));
}

/// Returns the name with every `-` replaced by `_`, the form in which a
/// package name stands in source text.
pub fn dash_to_underscore(name: &str) -> (r: String)
    ensures
        r@ == underscored(name@),
{
    proof {
        reveal_strlit("-");
        reveal_strlit("_");
        assert("-"@ =~= seq!['-']);
        assert("_"@ =~= seq!['_']);
        assert(is_literal_char('-'));
    }
    let re = match compile("-") {
        Ok(re) => re,
        Err(_) => {
            assert(false);
            return String::new();
        },
    };
    let out = replace_all(&re, name, "_");
    proof {
        lemma_replace_dash(name@);
    }
    out
}

/// Whether every character of `s` can stand in an identifier.
fn is_identifier(s: &str) -> (r: bool)
    ensures
        r == is_ident(s@),
{
    let n = s.unicode_len();
    let mut i: usize = 0;
    while i < n
        invariant
            n == s@.len(),
            i <= n,
            forall|j: int| 0 <= j < i ==> #[trigger] is_ident_char(s@[j]),
        decreases n - i,
    {
        let c = s.get_char(i);
        if !(('a' <= c && c <= 'z') || ('A' <= c && c <= 'Z') || ('0' <= c && c <= '9') || c
            == '_') {
            assert(!is_ident_char(s@[i as int]));
            return false;
        }
        i = i + 1;
    }
    true
}

/// `<head><name><tail>` as a new string.
fn framed(head: &str, name: &str, tail: &str) -> (r: String)
    ensures
        r@ == head@ + name@ + tail@,
{
    String::from_str(head).concat(name).concat(tail)
}

/// Rewrites, in a source file's text, every import that opens with the old
/// package's identifier (`use old::` or `use old as`) to open with the new
/// one. Both names are taken to their underscore form first; the match is
/// literal and does not parse the source, so text in comments that matches
/// is rewritten too.
pub fn update_use_statements(source: &str, old_name: &str, new_name: &str) -> (r: Result<
    String,
    RenameError,
>)
    ensures
        r is Ok <==> names_are_idents(old_name@, new_name@) && regex_accepts(
            path_import(underscored(old_name@)),
        ) && regex_accepts(alias_import(underscored(old_name@))),
        names_are_idents(old_name@, new_name@) && old_name@.len() <= 248 ==> r is Ok,
        r == Err::<String, RenameError>(RenameError::InvalidIdentifier) <==> !names_are_idents(
            old_name@,
            new_name@,
        ),
        r matches Err(e) ==> e == RenameError::InvalidIdentifier || e == RenameError::Pattern,
        r matches Ok(s) ==> s@ == rewrite_imports(
            source@,
            underscored(old_name@),
            underscored(new_name@),
        ),
{
    let new_id = dash_to_underscore(new_name);
    let old_id = dash_to_underscore(old_name);
    if !is_identifier(old_id.as_str()) || !is_identifier(new_id.as_str()) {
        return Err(RenameError::InvalidIdentifier);
    }
    proof {
        reveal_strlit("use ");
        reveal_strlit("::");
        reveal_strlit(" as");
        lemma_ident_is_literal(old_id@);
        lemma_ident_is_literal(new_id@);
    }
    let pattern = framed("use ", old_id.as_str(), "::");
    let replacement = framed("use ", new_id.as_str(), "::");
    assert(pattern@ == path_import(old_id@));
    assert(replacement@ == path_import(new_id@));
    let re = match compile(pattern.as_str()) {
        Ok(re) => re,
        Err(_) => return Err(RenameError::Pattern),
    };
    let haystack = replace_all(&re, source, replacement.as_str());

    let pattern = framed("use ", old_id.as_str(), " as");
    let replacement = framed("use ", new_id.as_str(), " as");
    assert(pattern@ == alias_import(old_id@));
    assert(replacement@ == alias_import(new_id@));
    let re = match compile(pattern.as_str()) {
        Ok(re) => re,
        Err(_) => return Err(RenameError::Pattern),
    };
    Ok(replace_all(&re, haystack.as_str(), replacement.as_str()))
}

} // verus!
