//! Slash-separated paths as texts.

use crate::text::{self, cat2, cat3, chars_of, find_char, str_eq, string_of, text};
use vstd::prelude::*;

verus! {

/// The parts of a text from `from` on, split at every slash.
pub open spec fn parts_from(s: Seq<char>, from: int) -> Seq<Seq<char>>
    decreases s.len() - from,
{
    if from < 0 || from > s.len() {
        Seq::empty()
    } else {
        let at = text::first_char_from(s, '/', from);
        if at < from || at >= s.len() {
            seq![s.subrange(from, s.len() as int)]
        } else {
            seq![s.subrange(from, at)] + parts_from(s, at + 1)
        }
    }
}

/// The parts of a path that name something: neither empty nor `.`.
pub open spec fn named_parts(parts: Seq<Seq<char>>) -> Seq<Seq<char>>
    decreases parts.len(),
{
    if parts.len() == 0 {
        Seq::empty()
    } else if parts.last().len() == 0 || parts.last() == "."@ {
        named_parts(parts.drop_last())
    } else {
        named_parts(parts.drop_last()).push(parts.last())
    }
}

/// The components of a relative path.
pub open spec fn components(s: Seq<char>) -> Seq<Seq<char>> {
    named_parts(parts_from(s, 0))
}

/// Whether a path is relative, not empty, does not start with `.` and never
/// climbs up.
pub open spec fn is_plain(s: Seq<char>) -> bool {
    &&& s.len() > 0
    &&& s[0] != '/'
    &&& parts_from(s, 0)[0] != "."@
    &&& forall|i: int|
        0 <= i < components(s).len() ==> #[trigger] components(s)[i] != ".."@
}

/// Splits a path at every slash.
pub fn split_path(s: &str) -> (r: Vec<String>)
    ensures
        text::views(r@) == parts_from(s@, 0),
        r@.len() >= 1,
{
    let chars: Vec<char> = chars_of(s);
    let n: usize = chars.len();
    let mut out: Vec<String> = Vec::new();
    let mut from: usize = 0;
    assert(text::views(out@) + parts_from(s@, 0) =~= parts_from(s@, 0));
    loop
        invariant_except_break
            text::views(out@) + parts_from(s@, from as int) == parts_from(s@, 0),
        invariant
            from <= n,
            n == chars@.len(),
            chars@ == s@,
        ensures
            text::views(out@) == parts_from(s@, 0),
            out@.len() >= 1,
        decreases n - from,
    {
        let at: usize = find_char(&chars, '/', from);
        let part: String = string_of(&chars, from, at);
        let ghost before = text::views(out@);
        out.push(part);
        assert(text::views(out@) =~= before.push(s@.subrange(from as int, at as int)));
        if at >= n {
            assert(text::views(out@) =~= before + parts_from(s@, from as int));
            break ;
        }
        assert(text::views(out@) + parts_from(s@, at + 1) =~= before + parts_from(
            s@,
            from as int,
        ));
        from = at + 1;
    }
    out
}

/// The components of a path.
pub fn path_components(s: &str) -> (r: Vec<String>)
    ensures
        text::views(r@) == components(s@),
{
    let parts: Vec<String> = split_path(s);
    let ghost all = text::views(parts@);
    let mut out: Vec<String> = Vec::new();
    let mut i: usize = 0;
    assert(text::views(out@) =~= named_parts(all.take(0)));
    while i < parts.len()
        invariant
            i <= parts@.len(),
            all == text::views(parts@),
            text::views(out@) == named_parts(all.take(i as int)),
        decreases parts@.len() - i,
    {
        proof {
            assert(all.take(i + 1).drop_last() =~= all.take(i as int));
            assert(all.take(i + 1).last() == parts@[i as int]@);
        }
        let skipped: bool = parts[i].as_str().unicode_len() == 0 || str_eq(parts[i].as_str(), ".");
        if !skipped {
            let ghost before = text::views(out@);
            out.push(parts[i].clone());
            assert(text::views(out@) =~= before.push(parts@[i as int]@));
        }
        i += 1;
    }
    assert(all.take(i as int) =~= all);
    out
}

/// Whether a path is relative, not empty, does not start with `.` and never
/// climbs up.
pub fn plain_path(s: &str) -> (r: bool)
    ensures
        r == is_plain(s@),
{
    if s.unicode_len() == 0 || s.get_char(0) == '/' {
        return false;
    }
    let parts: Vec<String> = split_path(s);
    assert(text::views(parts@)[0] == parts@[0]@);
    if str_eq(parts[0].as_str(), ".") {
        return false;
    }
    let named: Vec<String> = path_components(s);
    let ghost all = text::views(named@);
    let mut i: usize = 0;
    while i < named.len()
        invariant
            i <= named@.len(),
            all == text::views(named@),
            all == components(s@),
            forall|k: int| 0 <= k < i ==> #[trigger] all[k] != ".."@,
        decreases named@.len() - i,
    {
        if str_eq(named[i].as_str(), "..") {
            assert(all[i as int] == ".."@);
            return false;
        }
        assert(all[i as int] != ".."@);
        i += 1;
    }
    true
}

/// Whether a file name has an extension: something, a dot, and the extension.
pub open spec fn has_extension(name: Seq<char>, ext: Seq<char>) -> bool {
    &&& name.len() > ext.len() + 1
    &&& name[name.len() - ext.len() - 1] == '.'
    &&& name.skip(name.len() - ext.len()) == ext
}

/// Whether a file name has an extension that holds no dot.
pub fn extension_is(name: &str, ext: &str) -> (r: bool)
    ensures
        r == has_extension(name@, ext@),
{
    let chars: Vec<char> = chars_of(name);
    let wanted: Vec<char> = chars_of(ext);
    if chars.len() <= wanted.len() || chars.len() - wanted.len() == 1 {
        return false;
    }
    let dot: usize = chars.len() - wanted.len() - 1;
    if chars[dot] != '.' {
        return false;
    }
    let tail: String = string_of(&chars, dot + 1, chars.len());
    assert(tail@ =~= name@.skip(name@.len() - ext@.len()));
    str_eq(tail.as_str(), ext)
}

// ---------------------------------------------------------------------------
// File names
// ---------------------------------------------------------------------------

/// The path without separators and `.` components at its end.
pub open spec fn end_cut(s: Seq<char>) -> Seq<char>
    decreases s.len(),
{
    if s.len() >= 2 && (s.last() == '/' || (s.last() == '.' && s[s.len() - 2] == '/')) {
        end_cut(s.drop_last())
    } else {
        s
    }
}

/// The position behind the last slash.
pub open spec fn name_start(s: Seq<char>) -> int
    decreases s.len(),
{
    if s.len() == 0 {
        0
    } else if s.last() == '/' {
        s.len() as int
    } else {
        name_start(s.drop_last())
    }
}

/// The file name that a path ends with, if it does.
pub open spec fn file_name(s: Seq<char>) -> Option<Seq<char>> {
    let t = end_cut(s);
    let name = t.skip(name_start(t));
    if name.len() == 0 || name == "."@ || name == ".."@ {
        None
    } else {
        Some(name)
    }
}

/// The position of the dot before the extension of a file name, or its length.
/// A dot at the start does not count.
pub open spec fn stem_len(name: Seq<char>, n: nat) -> nat
    decreases n,
{
    if n <= 1 || n > name.len() {
        name.len()
    } else if name[n - 1] == '.' {
        (n - 1) as nat
    } else {
        stem_len(name, (n - 1) as nat)
    }
}

/// The extension of the file name of a path.
pub open spec fn extension(s: Seq<char>) -> Option<Seq<char>> {
    match file_name(s) {
        Some(name) => {
            let k = stem_len(name, name.len());
            if k < name.len() {
                Some(name.skip(k as int + 1))
            } else {
                None
            }
        },
        None => None,
    }
}

/// The path with another extension, or as it is where it has no file name.
pub open spec fn with_extension(s: Seq<char>, ext: Seq<char>) -> Seq<char> {
    match file_name(s) {
        Some(name) => {
            let t = end_cut(s);
            t.take(name_start(t) + stem_len(name, name.len())) + "."@ + ext
        },
        None => s,
    }
}

/// The path with a component added.
pub open spec fn joined_path(s: Seq<char>, name: Seq<char>) -> Seq<char> {
    if s.len() == 0 || s.last() == '/' {
        s + name
    } else {
        s + "/"@ + name
    }
}

/// The path with another file name; where it has none, the name is added.
pub open spec fn with_file_name(s: Seq<char>, name: Seq<char>) -> Seq<char> {
    match file_name(s) {
        Some(_) => {
            let t = end_cut(s);
            joined_path(end_cut(t.take(name_start(t))), name)
        },
        None => joined_path(s, name),
    }
}

fn cut_end(s: &Vec<char>, from: usize) -> (n: usize)
    requires
        from <= s@.len(),
    ensures
        n <= from,
        s@.take(n as int) == end_cut(s@.take(from as int)),
{
    let mut n: usize = from;
    while n >= 2 && (s[n - 1] == '/' || (s[n - 1] == '.' && s[n - 2] == '/'))
        invariant
            n <= from <= s@.len(),
            end_cut(s@.take(from as int)) == end_cut(s@.take(n as int)),
        decreases n,
    {
        assert(s@.take(n as int).drop_last() =~= s@.take(n - 1));
        n -= 1;
    }
    n
}

fn find_name(s: &Vec<char>, len: usize) -> (k: usize)
    requires
        len <= s@.len(),
    ensures
        k == name_start(s@.take(len as int)),
        k <= len,
{
    let mut k: usize = len;
    while k > 0 && s[k - 1] != '/'
        invariant
            k <= len <= s@.len(),
            name_start(s@.take(len as int)) == name_start(s@.take(k as int)),
        decreases k,
    {
        assert(s@.take(k as int).drop_last() =~= s@.take(k - 1));
        k -= 1;
    }
    k
}

fn find_stem(name: &Vec<char>) -> (k: usize)
    ensures
        k as nat == stem_len(name@, name@.len()),
        k <= name@.len(),
{
    let mut n: usize = name.len();
    while n > 1
        invariant
            n <= name@.len(),
            stem_len(name@, name@.len()) == stem_len(name@, n as nat),
        decreases n,
    {
        if name[n - 1] == '.' {
            return n - 1;
        }
        n -= 1;
    }
    name.len()
}

/// A path taken apart: its characters, its length without what [`end_cut`]
/// takes away, and the start of its file name.
struct Cut {
    chars: Vec<char>,
    len: usize,
    start: usize,
    name: Option<String>,
}

fn cut_path(s: &str) -> (r: Cut)
    ensures
        r.chars@ == s@,
        r.len <= s@.len(),
        s@.take(r.len as int) == end_cut(s@),
        r.start == name_start(end_cut(s@)),
        r.start <= r.len,
        text::opt_view(r.name) == file_name(s@),
        r.name matches Some(n) ==> n@ == s@.subrange(r.start as int, r.len as int),
{
    let chars: Vec<char> = chars_of(s);
    assert(chars@.take(chars@.len() as int) =~= chars@);
    let len: usize = cut_end(&chars, chars.len());
    let start: usize = find_name(&chars, len);
    let name: String = string_of(&chars, start, len);
    assert(name@ =~= end_cut(s@).skip(start as int));
    let named: Option<String> = if start == len || str_eq(name.as_str(), ".") || str_eq(
        name.as_str(),
        "..",
    ) {
        None
    } else {
        Some(name)
    };
    Cut { chars, len, start, name: named }
}

/// The path with another extension, see [`with_extension`].
pub fn replace_extension(s: &str, ext: &str) -> (r: String)
    ensures
        r@ == with_extension(s@, ext@),
{
    let cut: Cut = cut_path(s);
    match &cut.name {
        Some(name) => {
            let chars: Vec<char> = chars_of(name.as_str());
            let k: usize = find_stem(&chars);
            let head: String = string_of(&cut.chars, 0, cut.start + k);
            assert(head@ =~= end_cut(s@).take(cut.start + k));
            cat3(head.as_str(), ".", ext)
        },
        None => text(s),
    }
}

/// Whether the file name of a path has the given extension.
pub fn path_has_extension(s: &str, ext: &str) -> (r: bool)
    ensures
        r == (extension(s@) == Some(ext@)),
{
    let cut: Cut = cut_path(s);
    match &cut.name {
        Some(name) => {
            let chars: Vec<char> = chars_of(name.as_str());
            let k: usize = find_stem(&chars);
            if k < chars.len() {
                let tail: String = string_of(&chars, k + 1, chars.len());
                assert(tail@ =~= name@.skip(k + 1));
                str_eq(tail.as_str(), ext)
            } else {
                false
            }
        },
        None => false,
    }
}

fn join_path(s: &str, name: &str) -> (r: String)
    ensures
        r@ == joined_path(s@, name@),
{
    let n: usize = s.unicode_len();
    if n == 0 || s.get_char(n - 1) == '/' {
        cat2(s, name)
    } else {
        cat3(s, "/", name)
    }
}

/// The file name that a path ends with, see [`file_name`].
pub fn last_name(s: &str) -> (r: Option<String>)
    ensures
        text::opt_view(r) == file_name(s@),
{
    cut_path(s).name
}

/// The path with another file name, see [`with_file_name`].
pub fn replace_file_name(s: &str, name: &str) -> (r: String)
    ensures
        r@ == with_file_name(s@, name@),
{
    let cut: Cut = cut_path(s);
    match &cut.name {
        Some(_) => {
            let n: usize = cut_end(&cut.chars, cut.start);
            let parent: String = string_of(&cut.chars, 0, n);
            assert(parent@ =~= cut.chars@.take(n as int));
            assert(cut.chars@.take(cut.start as int) =~= end_cut(s@).take(cut.start as int));
            join_path(parent.as_str(), name)
        },
        None => join_path(s, name),
    }
}

proof fn first_slash(s: Seq<char>, from: int)
    requires
        0 <= from <= s.len(),
    ensures
        ({
            let at = text::first_char_from(s, '/', from);
            &&& from <= at <= s.len()
            &&& at < s.len() ==> s[at] == '/'
            &&& forall|i: int| from <= i < at ==> #[trigger] s[i] != '/'
        }),
    decreases s.len() - from,
{
    if from < s.len() && s[from] != '/' {
        first_slash(s, from + 1);
    }
}

/// The parts of a path, with slashes between them, are the path, and no part has
/// a slash.
pub proof fn parts_make_up_the_path(s: Seq<char>, from: int)
    requires
        0 <= from <= s.len(),
    ensures
        parts_from(s, from).len() > 0,
        text::joined(parts_from(s, from), seq!['/']) == s.skip(from),
        forall|i: int, k: int|
            0 <= i < parts_from(s, from).len() && 0 <= k < parts_from(s, from)[i].len()
                ==> #[trigger] parts_from(s, from)[i][k] != '/',
    decreases s.len() - from,
{
    let at = text::first_char_from(s, '/', from);
    first_slash(s, from);
    if at < s.len() {
        let rest = parts_from(s, at + 1);
        let first = s.subrange(from, at);
        parts_make_up_the_path(s, at + 1);
        let all = parts_from(s, from);
        assert(all =~= seq![first] + rest);
        joined_first(first, rest, seq!['/']);
        assert(first + seq!['/'] + s.skip(at + 1) =~= s.skip(from));
        assert forall|i: int, k: int|
            0 <= i < all.len() && 0 <= k < all[i].len() implies #[trigger] all[i][k] != '/' by {
            if i > 0 {
                assert(all[i] == rest[i - 1]);
            }
        }
    } else {
        let only = s.subrange(from, s.len() as int);
        assert(parts_from(s, from) =~= seq![only]);
        joined_one(only, seq!['/']);
        assert(only =~= s.skip(from));
    }
}

proof fn joined_one(a: Seq<char>, sep: Seq<char>)
    ensures
        text::joined(seq![a], sep) == a,
{
}

proof fn joined_first(a: Seq<char>, rest: Seq<Seq<char>>, sep: Seq<char>)
    requires
        rest.len() > 0,
    ensures
        text::joined(seq![a] + rest, sep) == a + sep + text::joined(rest, sep),
    decreases rest.len(),
{
    let all = seq![a] + rest;
    if rest.len() == 1 {
        assert(all.drop_last() =~= seq![a]);
        joined_one(a, sep);
        assert(rest[0] == all.last());
    } else {
        joined_first(a, rest.drop_last(), sep);
        assert(all.drop_last() =~= seq![a] + rest.drop_last());
        assert(all.last() == rest.last());
        assert(a + sep + text::joined(rest.drop_last(), sep) + sep + rest.last() =~= a + sep + (
        text::joined(rest.drop_last(), sep) + sep + rest.last()));
    }
}

/// The components of a path are its parts in order, without the empty ones and
/// without those that stay where they are.
pub proof fn components_are_the_named_parts(parts: Seq<Seq<char>>)
    ensures
        named_parts(parts) == parts.filter(|p: Seq<char>| p.len() > 0 && p != "."@),
    decreases parts.len(),
{
    reveal(Seq::filter);
    if parts.len() > 0 {
        components_are_the_named_parts(parts.drop_last());
    }
}

proof fn name_start_is_after_a_slash(s: Seq<char>)
    ensures
        0 <= name_start(s) <= s.len(),
        name_start(s) > 0 ==> s[name_start(s) - 1] == '/',
        forall|i: int| name_start(s) <= i < s.len() ==> #[trigger] s[i] != '/',
    decreases s.len(),
{
    if s.len() > 0 && s.last() != '/' {
        name_start_is_after_a_slash(s.drop_last());
        assert forall|i: int| name_start(s) <= i < s.len() implies #[trigger] s[i] != '/' by {
            if i < s.len() - 1 {
                assert(s.drop_last()[i] == s[i]);
            }
        }
        if name_start(s) > 0 {
            assert(s.drop_last()[name_start(s) - 1] == s[name_start(s) - 1]);
        }
    }
}

proof fn name_start_found(s: Seq<char>, k: int)
    requires
        0 <= k <= s.len(),
        k == 0 || s[k - 1] == '/',
        forall|i: int| k <= i < s.len() ==> #[trigger] s[i] != '/',
    ensures
        name_start(s) == k,
{
    name_start_is_after_a_slash(s);
}

/// Whether a text can be the name of a file: it is not empty, has no slash, and
/// is neither of the two names that stand for directories.
pub open spec fn is_file_name(name: Seq<char>) -> bool {
    &&& name.len() > 0
    &&& name != "."@
    &&& name != ".."@
    &&& forall|i: int| 0 <= i < name.len() ==> #[trigger] name[i] != '/'
}

/// The name of a file in a directory is the name it was joined with.
pub proof fn joined_paths_end_in_the_name(s: Seq<char>, name: Seq<char>)
    requires
        is_file_name(name),
    ensures
        file_name(joined_path(s, name)) == Some(name),
        joined_path(s, name).take(s.len() as int) == s,
{
    reveal_strlit("/");
    reveal_strlit(".");
    let p = joined_path(s, name);
    let k = p.len() - name.len();
    assert("/"@.len() == 1 && "/"@[0] == '/');
    assert forall|i: int| k <= i < p.len() implies #[trigger] p[i] != '/' by {
        assert(p[i] == name[i - k]);
    }
    assert(k == 0 || p[k - 1] == '/');
    assert(p.last() == name.last());
    if p.len() >= 2 && p.last() == '.' && p[p.len() - 2] == '/' {
        if name.len() >= 2 {
            assert(p[p.len() - 2] == name[name.len() - 2]);
        } else {
            assert(name =~= "."@);
        }
    }
    assert(end_cut(p) == p);
    name_start_found(p, k);
    assert(p.skip(k) =~= name);
    assert(p.take(s.len() as int) =~= s);
}

proof fn stem_ends_at_the_last_dot(name: Seq<char>, n: nat)
    requires
        n <= name.len(),
        forall|i: int| n <= i < name.len() ==> #[trigger] name[i] != '.',
    ensures
        ({
            let k = stem_len(name, n);
            &&& k <= name.len()
            &&& k < name.len() ==> k > 0 && name[k as int] == '.' && (forall|i: int|
                k < i < name.len() ==> #[trigger] name[i] != '.')
            &&& k == name.len() ==> forall|i: int| 0 < i < name.len() ==> #[trigger] name[i] != '.'
        }),
    decreases n,
{
    if n > 1 && name[n - 1] != '.' {
        stem_ends_at_the_last_dot(name, (n - 1) as nat);
    }
}

/// The extension of a path is what stands behind the last dot of its file name,
/// where a dot stands behind the first character; otherwise there is none.
pub proof fn extensions_stand_behind_the_last_dot(s: Seq<char>, name: Seq<char>)
    requires
        file_name(s) == Some(name),
    ensures
        match extension(s) {
            Some(ext) => exists|k: int|
                0 < k < name.len() && #[trigger] name[k] == '.' && ext == name.skip(k + 1) && (
                forall|i: int| k < i < name.len() ==> #[trigger] name[i] != '.'),
            None => forall|i: int| 0 < i < name.len() ==> #[trigger] name[i] != '.',
        },
{
    stem_ends_at_the_last_dot(name, name.len());
    let k = stem_len(name, name.len());
    if k < name.len() {
        assert(name[k as int] == '.');
    }
}

proof fn end_cut_keeps_names(s: Seq<char>)
    ensures
        end_cut(s).len() <= s.len(),
        end_cut(s) == s.take(end_cut(s).len() as int),
        end_cut(end_cut(s)) == end_cut(s),
    decreases s.len(),
{
    if s.len() >= 2 && (s.last() == '/' || (s.last() == '.' && s[s.len() - 2] == '/')) {
        end_cut_keeps_names(s.drop_last());
        let t = end_cut(s);
        assert(s.drop_last().take(t.len() as int) =~= s.take(t.len() as int));
    } else {
        assert(s.take(s.len() as int) =~= s);
    }
}

/// A path with another extension has that extension, and its file name is the
/// same up to the last dot.
pub proof fn replaced_extensions_are_found(s: Seq<char>, name: Seq<char>, ext: Seq<char>)
    requires
        file_name(s) == Some(name),
        ext.len() > 0,
        forall|i: int| 0 <= i < ext.len() ==> #[trigger] ext[i] != '/' && ext[i] != '.',
    ensures
        ({
            let stem = name.take(stem_len(name, name.len()) as int);
            &&& file_name(with_extension(s, ext)) == Some(stem + "."@ + ext)
            &&& extension(with_extension(s, ext)) == Some(ext)
        }),
{
    reveal_strlit(".");
    reveal_strlit("..");
    assert("."@.len() == 1 && "."@[0] == '.' && ".."@.len() == 2 && ".."@[1] == '.');
    let t = end_cut(s);
    let start = name_start(t);
    name_start_is_after_a_slash(t);
    stem_ends_at_the_last_dot(name, name.len());
    let k = stem_len(name, name.len()) as int;
    let stem = name.take(k);
    let fresh = stem + "."@ + ext;
    let p = with_extension(s, ext);
    let dir = t.take(start);
    assert(k > 0);
    assert(p =~= dir + fresh);
    assert forall|i: int| start <= i < p.len() implies #[trigger] p[i] != '/' by {
        let j = i - start;
        assert(p[i] == fresh[j]);
        if j < k {
            assert(fresh[j] == t[start + j]);
        } else if j > k {
            assert(fresh[j] == ext[j - k - 1]);
        }
    }
    if start > 0 {
        assert(p[start - 1] == t[start - 1]);
    }
    assert(p.last() == ext.last());
    assert(ext[ext.len() - 1] != '.');
    assert(end_cut(p) == p);
    name_start_found(p, start);
    assert(p.skip(start) =~= fresh);
    assert(fresh.last() == ext.last());
    assert(fresh != "."@ && fresh != ".."@);
    assert(file_name(p) == Some(fresh));
    dot_found(fresh, k, fresh.len());
    assert(fresh.skip(k + 1) =~= ext);
}

proof fn dot_found(name: Seq<char>, k: int, n: nat)
    requires
        0 < k < n <= name.len(),
        name[k] == '.',
        forall|i: int| k < i < n ==> #[trigger] name[i] != '.',
    ensures
        stem_len(name, n) == k,
    decreases n,
{
    if k < n - 1 {
        dot_found(name, k, (n - 1) as nat);
    }
}

/// A plain path goes down only: it does not begin at the root or with the
/// directory itself, and none of its parts leads up.
pub proof fn plain_paths_go_down_only(s: Seq<char>)
    requires
        s.len() > 0,
    ensures
        is_plain(s) <==> s[0] != '/' && parts_from(s, 0)[0] != "."@ && (forall|i: int|
            0 <= i < parts_from(s, 0).len() ==> #[trigger] parts_from(s, 0)[i] != ".."@),
{
    reveal_strlit(".");
    reveal_strlit("..");
    assert("."@.len() == 1 && ".."@.len() == 2);
    let parts = parts_from(s, 0);
    let keep = |p: Seq<char>| p.len() > 0 && p != "."@;
    components_are_the_named_parts(parts);
    let c = components(s);
    assert forall|i: int| 0 <= i < c.len() implies parts.contains(#[trigger] c[i]) by {
        assert(c.contains(c[i]));
        parts.lemma_filter_contains_rev(keep, c[i]);
    }
    assert forall|i: int| 0 <= i < parts.len() && #[trigger] parts[i] == ".."@ implies c.contains(
        ".."@,
    ) by {
        parts.lemma_filter_contains(keep, i);
    }
}

/// Replacing the file name of a path gives a path of the new name.
pub proof fn replaced_names_are_found(s: Seq<char>, name: Seq<char>)
    requires
        is_file_name(name),
    ensures
        file_name(with_file_name(s, name)) == Some(name),
{
    match file_name(s) {
        Some(_) => {
            let t = end_cut(s);
            joined_paths_end_in_the_name(end_cut(t.take(name_start(t))), name);
        },
        None => {
            joined_paths_end_in_the_name(s, name);
        },
    }
}

} // verus!
