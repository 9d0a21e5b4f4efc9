//! What the HTTP front end serves: which request paths are safe to map into
//! the output directory, and the content type and caching of each file.

use vstd::prelude::*;

use crate::text::{push_char, push_str};

verus! {

// ---------------------------------------------------------------------------
// Request paths
// ---------------------------------------------------------------------------

/// The pieces of `s` between slashes, empty ones included.
pub open spec fn split_slash(s: Seq<char>) -> Seq<Seq<char>>
    decreases s.len(),
{
    if s.len() == 0 {
        seq![Seq::empty()]
    } else {
        let p = split_slash(s.drop_last());
        if s.last() == '/' {
            p.push(Seq::empty())
        } else {
            p.update(p.len() - 1, p.last().push(s.last()))
        }
    }
}

pub open spec fn is_dot(p: Seq<char>) -> bool {
    p == seq!['.']
}

pub open spec fn is_dotdot(p: Seq<char>) -> bool {
    p == seq!['.', '.']
}

/// The normal path components among the pieces: not empty, not `.`.
pub open spec fn normal_parts(parts: Seq<Seq<char>>) -> Seq<Seq<char>>
    decreases parts.len(),
{
    if parts.len() == 0 {
        Seq::empty()
    } else {
        let rest = normal_parts(parts.drop_last());
        let p = parts.last();
        if p.len() == 0 || is_dot(p) {
            rest
        } else {
            rest.push(p)
        }
    }
}

/// The components joined with `/`.
pub open spec fn join_slash(parts: Seq<Seq<char>>) -> Seq<char>
    decreases parts.len(),
{
    if parts.len() == 0 {
        Seq::empty()
    } else if parts.len() == 1 {
        parts[0]
    } else {
        join_slash(parts.drop_last()) + seq!['/'] + parts.last()
    }
}

/// A request path is served only as a relative path of normal components:
/// it is refused when it starts at the root (`/`), starts with a `.`
/// component, holds a `..` component anywhere, or has no component at all.
/// Empty and inner `.` components are dropped.
pub open spec fn sanitize_spec(rel: Seq<char>) -> Option<Seq<char>> {
    let parts = split_slash(rel);
    let normal = normal_parts(parts);
    if rel.len() > 0 && rel[0] == '/' {
        None
    } else if is_dot(parts[0]) {
        None
    } else if exists|i: int| 0 <= i < parts.len() && is_dotdot(#[trigger] parts[i]) {
        None
    } else if normal.len() == 0 {
        None
    } else {
        Some(join_slash(normal))
    }
}

proof fn lemma_split_slash_nonempty(s: Seq<char>)
    ensures
        split_slash(s).len() >= 1,
    decreases s.len(),
{
    if s.len() > 0 {
        lemma_split_slash_nonempty(s.drop_last());
    }
}

/// Splits `s` (given as characters) at every `/`.
fn split_chars(s: &str) -> (res: Vec<Vec<char>>)
    ensures
        res@.len() == split_slash(s@).len(),
        forall|i: int| #![trigger res@[i]] 0 <= i < res@.len() ==> res@[i]@ == split_slash(s@)[i],
{
    let n = s.unicode_len();
    let mut parts: Vec<Vec<char>> = Vec::new();
    let mut cur: Vec<char> = Vec::new();
    let mut i: usize = 0;
    assert(s@.subrange(0, 0) =~= Seq::<char>::empty());
    while i < n
        invariant
            i <= n,
            n == s@.len(),
            parts@.len() + 1 == split_slash(s@.subrange(0, i as int)).len(),
            forall|j: int|
                #![trigger parts@[j]]
                0 <= j < parts@.len() ==> parts@[j]@ == split_slash(s@.subrange(0, i as int))[j],
            cur@ == split_slash(s@.subrange(0, i as int)).last(),
        decreases n - i,
    {
        let c = s.get_char(i);
        let ghost pre = s@.subrange(0, i as int);
        proof {
            lemma_split_slash_nonempty(pre);
            assert(s@.subrange(0, i + 1).drop_last() =~= pre);
        }
        if c == '/' {
            let mut done: Vec<char> = Vec::new();
            std::mem::swap(&mut done, &mut cur);
            parts.push(done);
        } else {
            cur.push(c);
        }
        i = i + 1;
    }
    assert(s@.subrange(0, n as int) =~= s@);
    proof {
        lemma_split_slash_nonempty(s@);
    }
    let ghost before = parts@;
    parts.push(cur);
    assert forall|i: int| #![trigger parts@[i]] 0 <= i < parts@.len() implies parts@[i]@ == split_slash(s@)[i] by {
        if i < before.len() {
            assert(parts@[i] == before[i]);
        }
    }
    parts
}

fn is_dot_exec(p: &Vec<char>) -> (res: bool)
    ensures
        res == is_dot(p@),
{
    let r = p.len() == 1 && p[0] == '.';
    assert(r ==> p@ =~= seq!['.']);
    r
}

fn is_dotdot_exec(p: &Vec<char>) -> (res: bool)
    ensures
        res == is_dotdot(p@),
{
    let r = p.len() == 2 && p[0] == '.' && p[1] == '.';
    assert(r ==> p@ =~= seq!['.', '.']);
    r
}

/// Reject path traversal; return a relative path with only normal components.
pub fn sanitize(rel: &str) -> (res: Option<String>)
    ensures
        match res {
            Some(p) => sanitize_spec(rel@) == Some(p@),
            None => sanitize_spec(rel@).is_none(),
        },
{
    let parts = split_chars(rel);
    let ghost sp = split_slash(rel@);
    proof {
        lemma_split_slash_nonempty(rel@);
    }
    if rel.unicode_len() > 0 && rel.get_char(0) == '/' {
        return None;
    }
    if is_dot_exec(&parts[0]) {
        return None;
    }
    let mut out = String::new();
    let mut count: usize = 0;
    let mut i: usize = 0;
    while i < parts.len()
        invariant
            i <= parts@.len(),
            parts@.len() == sp.len(),
            forall|j: int| #![trigger parts@[j]] 0 <= j < parts@.len() ==> parts@[j]@ == sp[j],
            forall|j: int| #![trigger sp[j]] 0 <= j < i ==> !is_dotdot(sp[j]),
            sp == split_slash(rel@),
            !(rel@.len() > 0 && rel@[0] == '/'),
            !is_dot(sp[0]),
            count <= i,
            count == normal_parts(sp.subrange(0, i as int)).len(),
            out@ == join_slash(normal_parts(sp.subrange(0, i as int))),
        decreases parts@.len() - i,
    {
        let p = &parts[i];
        proof {
            assert(sp.subrange(0, i + 1).drop_last() =~= sp.subrange(0, i as int));
        }
        if is_dotdot_exec(p) {
            // `..` is rejected outright.
            assert(is_dotdot(sp[i as int]));
            return None;
        }
        let ghost prev = normal_parts(sp.subrange(0, i as int));
        let ghost start = out@;
        if p.len() > 0 && !is_dot_exec(p) {
            if count > 0 {
                push_char(&mut out, '/');
            }
            let ghost before = out@;
            let mut k: usize = 0;
            while k < p.len()
                invariant
                    k <= p@.len(),
                    out@ == before + p@.subrange(0, k as int),
                decreases p@.len() - k,
            {
                push_char(&mut out, p[k]);
                k = k + 1;
            }
            assert(p@.subrange(0, p@.len() as int) =~= p@);
            proof {
                let next = prev.push(p@);
                assert(next.drop_last() =~= prev);
                if prev.len() == 0 {
                    assert(start =~= Seq::<char>::empty());
                    assert(out@ =~= p@);
                } else {
                    assert(out@ =~= start + seq!['/'] + p@);
                }
                assert(out@ == join_slash(next));
            }
            count = count + 1;
        }
        i = i + 1;
    }
    assert(sp.subrange(0, sp.len() as int) =~= sp);
    if count == 0 {
        return None;
    }
    Some(out)
}

/// A component that a sanitized path may hold: not empty, not `.` or `..`,
/// without a `/`.
pub open spec fn is_normal_part(p: Seq<char>) -> bool {
    &&& p.len() > 0
    &&& !is_dot(p)
    &&& !is_dotdot(p)
    &&& !p.contains('/')
}

proof fn lemma_split_slash_no_slash(s: Seq<char>)
    requires
        !s.contains('/'),
    ensures
        split_slash(s) == seq![s],
    decreases s.len(),
{
    if s.len() > 0 {
        let t = s.drop_last();
        assert(!t.contains('/')) by {
            if t.contains('/') {
                let i = choose|i: int| 0 <= i < t.len() && t[i] == '/';
                assert(s[i] == '/');
            }
        }
        lemma_split_slash_no_slash(t);
        assert(s.last() != '/') by {
            assert(s[s.len() - 1] == s.last());
        }
        assert(t.push(s.last()) =~= s);
    } else {
        assert(s =~= Seq::<char>::empty());
    }
}

proof fn lemma_split_slash_concat(x: Seq<char>, y: Seq<char>)
    ensures
        split_slash(x + seq!['/'] + y) == split_slash(x) + split_slash(y),
    decreases y.len(),
{
    let xs = x + seq!['/'];
    assert(xs.drop_last() =~= x);
    if y.len() == 0 {
        assert(x + seq!['/'] + y =~= xs);
        assert(split_slash(y) == seq![Seq::<char>::empty()]);
        assert(split_slash(xs) =~= split_slash(x) + split_slash(y));
    } else {
        let y0 = y.drop_last();
        lemma_split_slash_concat(x, y0);
        lemma_split_slash_nonempty(y0);
        lemma_split_slash_nonempty(x);
        let whole = x + seq!['/'] + y;
        assert(whole.drop_last() =~= x + seq!['/'] + y0);
        assert(whole.last() == y.last());
        let a = split_slash(x);
        let b = split_slash(y0);
        if y.last() == '/' {
            assert(split_slash(whole) =~= (a + b).push(Seq::empty()));
            assert(split_slash(y) =~= b.push(Seq::empty()));
            assert((a + b).push(Seq::<char>::empty()) =~= a + b.push(Seq::empty()));
        } else {
            let ab = a + b;
            assert(ab.last() == b.last());
            assert(split_slash(whole) == ab.update(ab.len() - 1, ab.last().push(y.last())));
            assert(split_slash(y) == b.update(b.len() - 1, b.last().push(y.last())));
            assert(ab.update(ab.len() - 1, ab.last().push(y.last())) =~= a + b.update(
                b.len() - 1,
                b.last().push(y.last()),
            ));
        }
    }
}

proof fn lemma_split_join(ps: Seq<Seq<char>>)
    requires
        ps.len() >= 1,
        forall|i: int| 0 <= i < ps.len() ==> !(#[trigger] ps[i]).contains('/'),
    ensures
        split_slash(join_slash(ps)) == ps,
    decreases ps.len(),
{
    if ps.len() == 1 {
        lemma_split_slash_no_slash(ps[0]);
        assert(seq![ps[0]] =~= ps);
    } else {
        let init = ps.drop_last();
        assert forall|i: int| 0 <= i < init.len() implies !(#[trigger] init[i]).contains('/') by {
            assert(init[i] == ps[i]);
        }
        lemma_split_join(init);
        lemma_split_slash_concat(join_slash(init), ps.last());
        assert(!ps[ps.len() - 1].contains('/'));
        lemma_split_slash_no_slash(ps.last());
        assert(init + seq![ps.last()] =~= ps);
    }
}

proof fn lemma_join_prefix(ps: Seq<Seq<char>>)
    requires
        ps.len() >= 1,
    ensures
        join_slash(ps).len() >= ps[0].len(),
        join_slash(ps).subrange(0, ps[0].len() as int) == ps[0],
    decreases ps.len(),
{
    if ps.len() > 1 {
        let init = ps.drop_last();
        lemma_join_prefix(init);
        assert(init[0] == ps[0]);
        let j = join_slash(init);
        assert((j + seq!['/'] + ps.last()).subrange(0, ps[0].len() as int) =~= j.subrange(
            0,
            ps[0].len() as int,
        ));
    }
}

proof fn lemma_split_slash_parts(s: Seq<char>)
    ensures
        forall|i: int|
            0 <= i < split_slash(s).len() ==> !(#[trigger] split_slash(s)[i]).contains('/'),
    decreases s.len(),
{
    if s.len() > 0 {
        let t = s.drop_last();
        lemma_split_slash_parts(t);
        lemma_split_slash_nonempty(t);
        let p = split_slash(t);
        if s.last() != '/' {
            assert forall|i: int| 0 <= i < split_slash(s).len() implies !(#[trigger] split_slash(
                s,
            )[i]).contains('/') by {
                if i == p.len() - 1 {
                    let q = p.last().push(s.last());
                    assert(split_slash(s)[i] == q);
                    if q.contains('/') {
                        let k = choose|k: int| 0 <= k < q.len() && q[k] == '/';
                        if k < p.last().len() {
                            assert(p[p.len() - 1][k] == '/');
                            assert(p[p.len() - 1].contains('/'));
                        }
                    }
                } else {
                    assert(split_slash(s)[i] == p[i]);
                }
            }
        } else {
            assert forall|i: int| 0 <= i < split_slash(s).len() implies !(#[trigger] split_slash(
                s,
            )[i]).contains('/') by {
                if i < p.len() {
                    assert(split_slash(s)[i] == p[i]);
                } else {
                    assert(split_slash(s)[i] == Seq::<char>::empty());
                }
            }
        }
    } else {
        assert(split_slash(s)[0] == Seq::<char>::empty());
    }
}

proof fn lemma_normal_parts_clean(parts: Seq<Seq<char>>)
    requires
        forall|j: int|
            0 <= j < parts.len() ==> !(#[trigger] parts[j]).contains('/') && !is_dotdot(parts[j]),
    ensures
        forall|i: int| 0 <= i < normal_parts(parts).len() ==> is_normal_part(#[trigger] normal_parts(parts)[i]),
    decreases parts.len(),
{
    if parts.len() > 0 {
        let init = parts.drop_last();
        assert forall|j: int| 0 <= j < init.len() implies !(#[trigger] init[j]).contains('/') && !is_dotdot(
            init[j],
        ) by {
            assert(init[j] == parts[j]);
        }
        lemma_normal_parts_clean(init);
        let last = parts[parts.len() - 1];
        assert(!last.contains('/') && !is_dotdot(last));
        let rest = normal_parts(init);
        assert forall|i: int| 0 <= i < normal_parts(parts).len() implies is_normal_part(
            #[trigger] normal_parts(parts)[i],
        ) by {
            if i < rest.len() {
                assert(normal_parts(parts)[i] == rest[i]);
            } else {
                assert(normal_parts(parts)[i] == last);
            }
        }
    }
}

proof fn lemma_normal_parts_keep(parts: Seq<Seq<char>>)
    requires
        forall|j: int| 0 <= j < parts.len() ==> is_normal_part(#[trigger] parts[j]),
    ensures
        normal_parts(parts) == parts,
    decreases parts.len(),
{
    if parts.len() > 0 {
        let init = parts.drop_last();
        assert forall|j: int| 0 <= j < init.len() implies is_normal_part(#[trigger] init[j]) by {
            assert(init[j] == parts[j]);
        }
        lemma_normal_parts_keep(init);
        assert(is_normal_part(parts[parts.len() - 1]));
        assert(init.push(parts.last()) =~= parts);
    }
}

/// What `sanitize` accepts is a relative path of normal components: it does
/// not start with `/`, and split at `/` it gives exactly its components, none
/// of them empty, `.` or `..`. Sanitizing it again gives it back unchanged.
pub proof fn law_sanitized_path_is_normal(rel: Seq<char>)
    ensures
        match sanitize_spec(rel) {
            Some(p) => {
                &&& p.len() > 0
                &&& p[0] != '/'
                &&& forall|i: int|
                    0 <= i < split_slash(p).len() ==> is_normal_part(#[trigger] split_slash(p)[i])
                &&& sanitize_spec(p) == Some(p)
            },
            None => true,
        },
{
    let parts = split_slash(rel);
    let normal = normal_parts(parts);
    if let Some(p) = sanitize_spec(rel) {
        lemma_split_slash_parts(rel);
        assert forall|j: int|
            0 <= j < parts.len() implies !(#[trigger] parts[j]).contains('/') && !is_dotdot(
            parts[j],
        ) by {}
        lemma_normal_parts_clean(parts);
        assert(p == join_slash(normal));
        assert forall|i: int| 0 <= i < normal.len() implies !(#[trigger] normal[i]).contains('/') by {
            assert(is_normal_part(normal[i]));
        }
        lemma_split_join(normal);
        lemma_join_prefix(normal);
        assert(is_normal_part(normal[0]));
        assert(p[0] == normal[0][0]) by {
            assert(p.subrange(0, normal[0].len() as int)[0] == p[0]);
        }
        lemma_normal_parts_keep(normal);
        let sp = split_slash(p);
        assert(sp == normal);
        assert(!is_dot(sp[0]));
        assert(!(exists|i: int| 0 <= i < sp.len() && is_dotdot(#[trigger] sp[i])));
    }
}

// ---------------------------------------------------------------------------
// Content types
// ---------------------------------------------------------------------------

/// The last of the pieces that is a component: not empty and not `.`
/// (empty when there is none).
pub open spec fn last_component(parts: Seq<Seq<char>>) -> Seq<char>
    decreases parts.len(),
{
    if parts.len() == 0 {
        Seq::empty()
    } else if parts.last().len() > 0 && !is_dot(parts.last()) {
        parts.last()
    } else {
        last_component(parts.drop_last())
    }
}

/// The file name of a path: its last component, trailing `/` and `.`
/// pieces ignored (empty when it has none).
pub open spec fn file_name(path: Seq<char>) -> Seq<char> {
    last_component(split_slash(path))
}

/// The extension of a file name: what follows its last `.`, unless the name
/// has no `.` besides a leading one, or is `..`.
pub open spec fn extension(name: Seq<char>) -> Option<Seq<char>> {
    if is_dotdot(name) {
        None
    } else {
        let dots = split_dots(name);
        if dots.len() < 2 || (dots.len() == 2 && dots[0].len() == 0) {
            None
        } else {
            Some(dots.last())
        }
    }
}

/// The pieces of `s` between dots, empty ones included.
pub open spec fn split_dots(s: Seq<char>) -> Seq<Seq<char>>
    decreases s.len(),
{
    if s.len() == 0 {
        seq![Seq::empty()]
    } else {
        let p = split_dots(s.drop_last());
        if s.last() == '.' {
            p.push(Seq::empty())
        } else {
            p.update(p.len() - 1, p.last().push(s.last()))
        }
    }
}

/// ASCII lowercase of one character.
pub open spec fn ascii_lower(c: char) -> char {
    if 'A' <= c && c <= 'Z' {
        ((c as u32) + 32) as char
    } else {
        c
    }
}

/// Content type and cache policy by lowercase extension: playlists and
/// manifests are never cached, the init segment is immutable, media segments
/// are cacheable for an hour, anything else is an uncached octet stream.
pub open spec fn content_meta_spec(path: Seq<char>) -> (Seq<char>, Seq<char>) {
    let ext = match extension(file_name(path)) {
        Some(e) => e.map_values(|c: char| ascii_lower(c)),
        None => Seq::empty(),
    };
    if ext == seq!['m', '3', 'u', '8'] {
        ("application/vnd.apple.mpegurl"@, "no-cache"@)
    } else if ext == seq!['m', 'p', 'd'] {
        ("application/dash+xml"@, "no-cache"@)
    } else if ext == seq!['m', 'p', '4'] {
        ("video/mp4"@, "public, max-age=31536000, immutable"@)
    } else if ext == seq!['m', '4', 's'] {
        ("video/iso.segment"@, "public, max-age=3600"@)
    } else {
        ("application/octet-stream"@, "no-cache"@)
    }
}

fn lower_char(c: char) -> (res: char)
    ensures
        res == ascii_lower(c),
{
    if 'A' <= c && c <= 'Z' {
        ((c as u8) + 32) as char
    } else {
        c
    }
}

fn same_chars(a: &Vec<char>, b: &[char]) -> (res: bool)
    ensures
        res == (a@ == b@),
{
    if a.len() != b.len() {
        return false;
    }
    let mut i: usize = 0;
    while i < a.len()
        invariant
            i <= a@.len(),
            a@.len() == b@.len(),
            forall|j: int| 0 <= j < i ==> a@[j] == b@[j],
        decreases a@.len() - i,
    {
        if a[i] != b[i] {
            return false;
        }
        i = i + 1;
    }
    assert(a@ =~= b@);
    true
}

/// The content type and `Cache-Control` value for a served file.
pub fn content_meta(path: &str) -> (res: (&'static str, &'static str))
    ensures
        (res.0@, res.1@) == content_meta_spec(path@),
{
    let parts = split_chars(path);
    // The last component, skipping trailing empty and `.` pieces.
    let mut last: Option<usize> = None;
    let mut j: usize = 0;
    while j < parts.len()
        invariant
            j <= parts@.len(),
            parts@.len() == split_slash(path@).len(),
            forall|k: int| #![trigger parts@[k]] 0 <= k < parts@.len() ==> parts@[k]@ == split_slash(path@)[k],
            match last {
                Some(k) => k < j && parts@[k as int]@ == last_component(split_slash(path@).take(j as int)),
                None => last_component(split_slash(path@).take(j as int)) == Seq::<char>::empty(),
            },
        decreases parts@.len() - j,
    {
        proof {
            assert(split_slash(path@).take(j + 1).drop_last() =~= split_slash(path@).take(j as int));
        }
        if parts[j].len() > 0 && !is_dot_exec(&parts[j]) {
            last = Some(j);
        }
        j = j + 1;
    }
    assert(split_slash(path@).take(parts@.len() as int) =~= split_slash(path@));
    let none: Vec<char> = Vec::new();
    let name: &Vec<char> = match last {
        Some(k) => &parts[k],
        None => &none,
    };
    assert(name@ == file_name(path@));
    // Split the file name at dots.
    let mut dots: Vec<Vec<char>> = Vec::new();
    let mut cur: Vec<char> = Vec::new();
    let mut i: usize = 0;
    assert(name@.subrange(0, 0) =~= Seq::<char>::empty());
    while i < name.len()
        invariant
            i <= name@.len(),
            dots@.len() + 1 == split_dots(name@.subrange(0, i as int)).len(),
            forall|j: int|
                #![trigger dots@[j]]
                0 <= j < dots@.len() ==> dots@[j]@ == split_dots(name@.subrange(0, i as int))[j],
            cur@ == split_dots(name@.subrange(0, i as int)).last(),
        decreases name@.len() - i,
    {
        let c = name[i];
        proof {
            lemma_split_dots_nonempty(name@.subrange(0, i as int));
            assert(name@.subrange(0, i + 1).drop_last() =~= name@.subrange(0, i as int));
        }
        if c == '.' {
            let mut done: Vec<char> = Vec::new();
            std::mem::swap(&mut done, &mut cur);
            dots.push(done);
        } else {
            cur.push(c);
        }
        i = i + 1;
    }
    assert(name@.subrange(0, name@.len() as int) =~= name@);
    proof {
        lemma_split_dots_nonempty(name@);
    }
    let ghost sd = split_dots(name@);
    // `dots` holds all pieces but the last, which is `cur`.
    let has_ext = !is_dotdot_exec(name) && dots.len() >= 1 && !(dots.len() == 1 && dots[0].len() == 0);
    let mut ext: Vec<char> = Vec::new();
    if has_ext {
        let mut k: usize = 0;
        while k < cur.len()
            invariant
                k <= cur@.len(),
                ext@ == cur@.subrange(0, k as int).map_values(|c: char| ascii_lower(c)),
            decreases cur@.len() - k,
        {
            ext.push(lower_char(cur[k]));
            k = k + 1;
            assert(cur@.subrange(0, k as int).map_values(|c: char| ascii_lower(c)) =~= cur@.subrange(
                0,
                k - 1,
            ).map_values(|c: char| ascii_lower(c)).push(ascii_lower(cur@[k - 1])));
        }
        assert(cur@.subrange(0, cur@.len() as int) =~= cur@);
    }
    assert(ext@ =~= match extension(file_name(path@)) {
        Some(e) => e.map_values(|c: char| ascii_lower(c)),
        None => Seq::<char>::empty(),
    });
    if same_chars(&ext, &['m', '3', 'u', '8']) {
        ("application/vnd.apple.mpegurl", "no-cache")
    } else if same_chars(&ext, &['m', 'p', 'd']) {
        ("application/dash+xml", "no-cache")
    } else if same_chars(&ext, &['m', 'p', '4']) {
        // Init segment: immutable, cache it.
        ("video/mp4", "public, max-age=31536000, immutable")
    } else if same_chars(&ext, &['m', '4', 's']) {
        // Media segments: cacheable for the window lifetime.
        ("video/iso.segment", "public, max-age=3600")
    } else {
        ("application/octet-stream", "no-cache")
    }
}

proof fn lemma_split_dots_nonempty(s: Seq<char>)
    ensures
        split_dots(s).len() >= 1,
    decreases s.len(),
{
    if s.len() > 0 {
        lemma_split_dots_nonempty(s.drop_last());
    }
}

// ---------------------------------------------------------------------------
// Landing page
// ---------------------------------------------------------------------------

pub const INDEX_HEAD: &'static str = "<!doctype html><html><head><meta charset=\"utf-8\"><title>hlsd</title></head><body><h1>hlsd</h1><ul>";
pub const INDEX_HLS_LINKS: &'static str = "<li><a href=\"/stream.m3u8\">/stream.m3u8</a> (HLS media playlist)</li><li><a href=\"/master.m3u8\">/master.m3u8</a> (HLS multivariant)</li>";
pub const INDEX_DASH_LINK: &'static str = "<li><a href=\"/stream.mpd\">/stream.mpd</a> (MPEG-DASH)</li>";
pub const INDEX_LIST_END: &'static str = "</ul>";
pub const INDEX_AUDIO: &'static str = "<audio controls src=\"/stream.m3u8\"></audio><p><small>Native playback works in Safari; other browsers need an HLS/DASH player.</small></p>";
pub const INDEX_TAIL: &'static str = "</body></html>";

/// The landing page: a list linking the HLS playlists (when HLS is on) and
/// the DASH manifest (when DASH is on), then an audio player on the HLS
/// playlist when HLS is on.
pub open spec fn index_page_spec(hls: bool, dash: bool) -> Seq<char> {
    INDEX_HEAD@ + (if hls {
        INDEX_HLS_LINKS@
    } else {
        Seq::empty()
    }) + (if dash {
        INDEX_DASH_LINK@
    } else {
        Seq::empty()
    }) + INDEX_LIST_END@ + (if hls {
        INDEX_AUDIO@
    } else {
        Seq::empty()
    }) + INDEX_TAIL@
}

/// The HTML of the landing page for the enabled outputs.
pub fn index_page(hls: bool, dash: bool) -> (res: String)
    ensures
        res@ == index_page_spec(hls, dash),
{
    let mut page = String::new();
    push_str(&mut page, INDEX_HEAD);
    if hls {
        push_str(&mut page, INDEX_HLS_LINKS);
    }
    if dash {
        push_str(&mut page, INDEX_DASH_LINK);
    }
    push_str(&mut page, INDEX_LIST_END);
    if hls {
        push_str(&mut page, INDEX_AUDIO);
    }
    push_str(&mut page, INDEX_TAIL);
    assert(page@ =~= index_page_spec(hls, dash));
    page
}

/// The landing page lists what is enabled, whatever else is:
/// - with neither format it is the head, an empty list and the tail;
/// - enabling DASH, whatever HLS is set to, adds exactly the DASH link, at
///   the end of the list;
/// - enabling HLS, whatever DASH is set to, adds exactly the two HLS links at
///   the start of the list and the audio player right before the tail.
pub proof fn law_index_page_lists_enabled_outputs(hls: bool, dash: bool)
    ensures
        index_page_spec(false, false) == INDEX_HEAD@ + INDEX_LIST_END@ + INDEX_TAIL@,
        exists|p: Seq<char>, q: Seq<char>|
            index_page_spec(hls, false) == p + INDEX_LIST_END@ + q && index_page_spec(hls, true) == p
                + INDEX_DASH_LINK@ + INDEX_LIST_END@ + q,
        exists|r: Seq<char>|
            index_page_spec(false, dash) == INDEX_HEAD@ + r + INDEX_TAIL@ && index_page_spec(true, dash)
                == INDEX_HEAD@ + INDEX_HLS_LINKS@ + r + INDEX_AUDIO@ + INDEX_TAIL@,
{
    assert(index_page_spec(false, false) =~= INDEX_HEAD@ + INDEX_LIST_END@ + INDEX_TAIL@);
    let p = INDEX_HEAD@ + (if hls {
        INDEX_HLS_LINKS@
    } else {
        Seq::empty()
    });
    let q = (if hls {
        INDEX_AUDIO@
    } else {
        Seq::empty()
    }) + INDEX_TAIL@;
    assert(index_page_spec(hls, false) =~= p + INDEX_LIST_END@ + q);
    assert(index_page_spec(hls, true) =~= p + INDEX_DASH_LINK@ + INDEX_LIST_END@ + q);
    let r = (if dash {
        INDEX_DASH_LINK@
    } else {
        Seq::empty()
    }) + INDEX_LIST_END@;
    assert(index_page_spec(false, dash) =~= INDEX_HEAD@ + r + INDEX_TAIL@);
    assert(index_page_spec(true, dash) =~= INDEX_HEAD@ + INDEX_HLS_LINKS@ + r + INDEX_AUDIO@
        + INDEX_TAIL@);
}

} // verus!
