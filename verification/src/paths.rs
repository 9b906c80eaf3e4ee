//! Paths as text, read the way `std::path` reads them on Unix: `/` separates
//! components, a leading `/` is the root, `.` is the current directory and `..`
//! the parent.

use vstd::prelude::*;

use crate::text::push_char;

verus! {

/// The text between the separators of `s`, from left to right (empty texts
/// included): `"a//b/"` gives `"a"`, `""`, `"b"`, `""`.
pub open spec fn path_segments(s: Seq<char>) -> Seq<Seq<char>>
    decreases s.len(),
{
    if s.len() == 0 {
        seq![seq![]]
    } else {
        let init = path_segments(s.drop_last());
        if s.last() == '/' {
            init.push(seq![])
        } else {
            init.update(init.len() - 1, init.last().push(s.last()))
        }
    }
}

/// The segment `.`.
pub open spec fn is_cur_dir(seg: Seq<char>) -> bool {
    seg == seq!['.']
}

/// The segment `..`.
pub open spec fn is_parent_dir(seg: Seq<char>) -> bool {
    seg == seq!['.', '.']
}

/// Whether the path starts at the root.
pub open spec fn has_root(s: Seq<char>) -> bool {
    s.len() > 0 && s[0] == '/'
}

/// Every component of the path is a plain name: no root, no leading `.`, no `..`.
pub open spec fn all_components_normal(s: Seq<char>) -> bool {
    let segs = path_segments(s);
    &&& !has_root(s)
    &&& !is_cur_dir(segs[0])
    &&& forall|i: int| 0 <= i < segs.len() ==> !is_parent_dir(#[trigger] segs[i])
}

/// The last segment that names something (neither empty nor `.`), if any.
pub open spec fn last_named_segment(segs: Seq<Seq<char>>) -> Option<Seq<char>>
    decreases segs.len(),
{
    if segs.len() == 0 {
        None
    } else if segs.last().len() > 0 && !is_cur_dir(segs.last()) {
        Some(segs.last())
    } else {
        last_named_segment(segs.drop_last())
    }
}

/// The index of the last `.` of `s`, or -1.
pub open spec fn last_dot(s: Seq<char>) -> int
    decreases s.len(),
{
    if s.len() == 0 {
        -1
    } else if s.last() == '.' {
        s.len() - 1
    } else {
        last_dot(s.drop_last())
    }
}

/// The extension of a file name, as `Path::extension` gives it: the text after
/// the last `.`, unless there is no `.`, or the only one leads the name, or the
/// name is `..`.
pub open spec fn file_extension(name: Seq<char>) -> Option<Seq<char>> {
    if is_parent_dir(name) {
        None
    } else if last_dot(name) <= 0 {
        None
    } else {
        Some(name.skip(last_dot(name) + 1))
    }
}

/// The extension `pdf`.
pub open spec fn pdf_extension() -> Seq<char> {
    seq!['p', 'd', 'f']
}

/// A requested file name is served when it is a relative path of plain names
/// whose file name has the extension `pdf`.
pub open spec fn download_name_accepted(s: Seq<char>) -> bool {
    &&& all_components_normal(s)
    &&& match last_named_segment(path_segments(s)) {
        Some(name) => file_extension(name) == Some(pdf_extension()),
        None => false,
    }
}

/// `base` joined with `path`, as `Path::join` does it: a path from the root
/// replaces `base`; else a separator goes between them where `base` is not
/// empty and does not end in one.
pub open spec fn join_spec(base: Seq<char>, path: Seq<char>) -> Seq<char> {
    if has_root(path) {
        path
    } else if base.len() == 0 {
        path
    } else if base.last() == '/' {
        base + path
    } else {
        base + seq!['/'] + path
    }
}

/// The directory that generated files are kept in.
pub open spec fn download_dir() -> Seq<char> {
    seq!['t', 'm', 'p']
}

proof fn lemma_segments_nonempty(s: Seq<char>)
    ensures
        path_segments(s).len() >= 1,
    decreases s.len(),
{
    if s.len() > 0 {
        lemma_segments_nonempty(s.drop_last());
    }
}

proof fn lemma_last_dot(s: Seq<char>)
    ensures
        -1 <= last_dot(s) < s.len(),
        last_dot(s) >= 0 ==> s[last_dot(s)] == '.',
        forall|j: int| last_dot(s) < j < s.len() ==> s[j] != '.',
    decreases s.len(),
{
    if s.len() > 0 && s.last() != '.' {
        lemma_last_dot(s.drop_last());
        assert forall|j: int| last_dot(s) < j < s.len() implies s[j] != '.' by {
            if j < s.len() - 1 {
                assert(s[j] == s.drop_last()[j]);
            }
        }
    }
}

/// The extension is `pdf` exactly when the name is longer than `.pdf` and ends in it.
pub proof fn lemma_pdf_extension(name: Seq<char>)
    ensures
        file_extension(name) == Some(pdf_extension()) <==> (name.len() > 4 && name.subrange(
            name.len() - 4,
            name.len() as int,
        ) == seq!['.', 'p', 'd', 'f']),
{
    lemma_last_dot(name);
    let n = name.len() as int;
    if n > 4 && name.subrange(n - 4, n) == seq!['.', 'p', 'd', 'f'] {
        assert(name[n - 1] == 'f' && name[n - 2] == 'd' && name[n - 3] == 'p' && name[n - 4] == '.');
        let a = name.drop_last();
        let b = a.drop_last();
        let c = b.drop_last();
        assert(a.last() == 'd' && b.last() == 'p' && c.last() == '.');
        assert(last_dot(c) == n - 4);
        assert(last_dot(name) == n - 4);
        assert(name.skip(n - 3) =~= pdf_extension());
        assert(!is_parent_dir(name));
    }
    if file_extension(name) == Some(pdf_extension()) {
        let d = last_dot(name);
        assert(name.skip(d + 1).len() == 3);
        assert(d == n - 4);
        assert(name.skip(d + 1)[0] == name[d + 1]);
        assert(name.skip(d + 1)[1] == name[d + 2]);
        assert(name.skip(d + 1)[2] == name[d + 3]);
        assert(name.subrange(n - 4, n) =~= seq!['.', 'p', 'd', 'f']);
    }
}

/// The chars of `s`.
pub fn chars_of(s: &str) -> (r: Vec<char>)
    ensures
        r@ == s@,
{
    let n = s.unicode_len();
    let mut out: Vec<char> = Vec::new();
    for i in 0..n
        invariant
            n == s@.len(),
            out@ == s@.take(i as int),
    {
        out.push(s.get_char(i));
        assert(out@ =~= s@.take(i + 1));
    }
    assert(s@.take(n as int) =~= s@);
    out
}

/// The segments of a text given as its chars.
fn segments_of(chars: &Vec<char>) -> (r: Vec<Vec<char>>)
    ensures
        r@.map_values(|v: Vec<char>| v@) == path_segments(chars@),
{
    let n = chars.len();
    let mut done: Vec<Vec<char>> = Vec::new();
    let mut cur: Vec<char> = Vec::new();
    proof {
        assert(chars@.take(0) =~= seq![]);
        assert(done@.map_values(|v: Vec<char>| v@).push(cur@) =~= seq![seq![]]);
    }
    for i in 0..n
        invariant
            n == chars@.len(),
            done@.map_values(|v: Vec<char>| v@).push(cur@) == path_segments(chars@.take(i as int)),
    {
        let c = chars[i];
        let ghost prev = done@.map_values(|v: Vec<char>| v@).push(cur@);
        proof {
            let t = chars@.take(i + 1);
            assert(t.drop_last() =~= chars@.take(i as int));
            assert(t.last() == c);
            lemma_segments_nonempty(chars@.take(i as int));
        }
        if c == '/' {
            let mut finished: Vec<char> = Vec::new();
            std::mem::swap(&mut finished, &mut cur);
            done.push(finished);
            assert(done@.map_values(|v: Vec<char>| v@).push(cur@) =~= prev.push(seq![]));
        } else {
            cur.push(c);
            assert(done@.map_values(|v: Vec<char>| v@).push(cur@) =~= prev.update(
                prev.len() - 1,
                prev.last().push(c),
            ));
        }
    }
    assert(chars@.take(n as int) =~= chars@);
    done.push(cur);
    done
}

fn is_cur_dir_exec(seg: &Vec<char>) -> (r: bool)
    ensures
        r == is_cur_dir(seg@),
{
    let r = seg.len() == 1 && seg[0] == '.';
    proof {
        if r {
            assert(seg@ =~= seq!['.']);
        }
    }
    r
}

fn is_parent_dir_exec(seg: &Vec<char>) -> (r: bool)
    ensures
        r == is_parent_dir(seg@),
{
    let r = seg.len() == 2 && seg[0] == '.' && seg[1] == '.';
    proof {
        if r {
            assert(seg@ =~= seq!['.', '.']);
        }
    }
    r
}

fn ends_with_pdf(name: &Vec<char>) -> (r: bool)
    ensures
        r == (file_extension(name@) == Some(pdf_extension())),
{
    proof {
        lemma_pdf_extension(name@);
    }
    let n = name.len();
    if n <= 4 {
        return false;
    }
    let r = name[n - 4] == '.' && name[n - 3] == 'p' && name[n - 2] == 'd' && name[n - 1] == 'f';
    proof {
        let tail = name@.subrange(n - 4, n as int);
        if r {
            assert(tail =~= seq!['.', 'p', 'd', 'f']);
        } else {
            if tail == seq!['.', 'p', 'd', 'f'] {
                assert(tail[0] == name@[n - 4]);
                assert(tail[1] == name@[n - 3]);
                assert(tail[2] == name@[n - 2]);
                assert(tail[3] == name@[n - 1]);
            }
        }
    }
    r
}

/// Whether a requested file name may be served from the download directory.
pub fn is_download_name_accepted(file_name: &str) -> (r: bool)
    ensures
        r == download_name_accepted(file_name@),
{
    let chars = chars_of(file_name);
    let segs = segments_of(&chars);
    let ghost sv = segs@.map_values(|v: Vec<char>| v@);
    proof {
        lemma_segments_nonempty(file_name@);
        assert(sv == path_segments(file_name@));
    }
    if chars.len() > 0 && chars[0] == '/' {
        return false;
    }
    if is_cur_dir_exec(&segs[0]) {
        return false;
    }
    let n = segs.len();
    let mut named: Option<usize> = None;
    for j in 0..n
        invariant
            n == segs@.len(),
            sv == segs@.map_values(|v: Vec<char>| v@),
            sv == path_segments(file_name@),
            forall|k: int| 0 <= k < j ==> !is_parent_dir(#[trigger] sv[k]),
            match named {
                Some(k) => k < j && last_named_segment(sv.take(j as int)) == Some(sv[k as int]),
                None => last_named_segment(sv.take(j as int)) is None,
            },
    {
        proof {
            assert(sv.take(j + 1).drop_last() =~= sv.take(j as int));
            assert(sv.take(j + 1).last() == sv[j as int]);
        }
        assert(sv[j as int] == segs@[j as int]@);
        if is_parent_dir_exec(&segs[j]) {
            assert(is_parent_dir(path_segments(file_name@)[j as int]));
            assert(!all_components_normal(file_name@));
            return false;
        }
        if segs[j].len() > 0 && !is_cur_dir_exec(&segs[j]) {
            named = Some(j);
        }
    }
    assert(sv.take(n as int) =~= sv);
    match named {
        Some(k) => ends_with_pdf(&segs[k]),
        None => false,
    }
}

/// `base` joined with `path`.
pub fn join_path(base: &str, path: &str) -> (r: String)
    ensures
        r@ == join_spec(base@, path@),
{
    let path_len = path.unicode_len();
    if path_len > 0 && path.get_char(0) == '/' {
        return String::from_str(path);
    }
    let base_len = base.unicode_len();
    if base_len == 0 {
        return String::from_str(path);
    }
    let mut out = String::from_str(base);
    if base.get_char(base_len - 1) != '/' {
        push_char(&mut out, '/');
    }
    out.append(path);
    out
}

/// Where an asset named by `path` is read from, next to `base_dir`: a path
/// from the root as it is, else joined to `base_dir`.
pub fn resolve_asset_path(base_dir: &str, path: &str) -> (r: String)
    ensures
        r@ == join_spec(base_dir@, path@),
        has_root(path@) ==> r@ == path@,
{
    join_path(base_dir, path)
}

/// The directory of static files under `manifest_dir`.
pub fn static_root(manifest_dir: &str) -> (r: String)
    ensures
        r@ == join_spec(manifest_dir@, seq!['s', 't', 'a', 't', 'i', 'c']),
{
    let r = join_path(manifest_dir, "static");
    proof {
        reveal_strlit("static");
        assert("static"@ =~= seq!['s', 't', 'a', 't', 'i', 'c']);
    }
    r
}

/// Where a requested file is read from: `tmp/<file_name>` when the name is
/// served (see `download_name_accepted`), else nothing.
pub fn resolve_download_path(file_name: &str) -> (r: Option<String>)
    ensures
        r is Some <==> download_name_accepted(file_name@),
        r matches Some(p) ==> p@ == join_spec(download_dir(), file_name@),
        r matches Some(p) ==> p@ == download_dir() + seq!['/'] + file_name@,
{
    if is_download_name_accepted(file_name) {
        let p = join_path("tmp", file_name);
        proof {
            reveal_strlit("tmp");
            assert("tmp"@ =~= download_dir());
        }
        Some(p)
    } else {
        None
    }
}

/// A served name never leaves the download directory: it does not start at
/// the root and no component of it is `..`.
pub proof fn law_served_names_stay_inside(file_name: Seq<char>)
    requires
        download_name_accepted(file_name),
    ensures
        !has_root(file_name),
        forall|i: int|
            0 <= i < path_segments(file_name).len() ==> !is_parent_dir(
                #[trigger] path_segments(file_name)[i],
            ),
{
}

} // verus!
