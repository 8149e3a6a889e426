//! Unix path strings: joining, splitting into components, the file name and
//! the order in which paths are sorted.
use vstd::prelude::*;

use crate::text::{join2, join3, substring};

verus! {

/// `PathBuf::join` on Unix: an absolute `rest` replaces `base`; otherwise a
/// `/` is put between them unless `base` is empty or already ends in `/`.
pub open spec fn spec_path_join(base: Seq<char>, rest: Seq<char>) -> Seq<char> {
    if rest.len() > 0 && rest[0] == '/' {
        rest
    } else if base.len() == 0 || base.last() == '/' {
        base + rest
    } else {
        base + seq!['/'] + rest
    }
}

/// `PathBuf::join` on Unix path strings.
pub fn path_join(base: &str, rest: &str) -> (r: String)
    ensures
        r@ == spec_path_join(base@, rest@),
{
    let n = base.unicode_len();
    if rest.unicode_len() > 0 && rest.get_char(0) == '/' {
        String::from_str(rest)
    } else if n == 0 || base.get_char(n - 1) == '/' {
        join2(base, rest)
    } else {
        proof {
            reveal_strlit("/");
        }
        join3(base, "/", rest)
    }
}

/// The pieces of `s` between `/` characters (`str::split('/')`).
pub open spec fn split_slash(s: Seq<char>) -> Seq<Seq<char>>
    decreases s.len(),
{
    if s.len() == 0 {
        seq![Seq::<char>::empty()]
    } else {
        let r = split_slash(s.drop_last());
        if s.last() == '/' {
            r.push(Seq::<char>::empty())
        } else {
            r.update(r.len() - 1, r.last().push(s.last()))
        }
    }
}

/// `split_slash` never gives an empty list.
pub proof fn lemma_split_slash_nonempty(s: Seq<char>)
    ensures
        split_slash(s).len() >= 1,
    decreases s.len(),
{
    if s.len() > 0 {
        lemma_split_slash_nonempty(s.drop_last());
    }
}

/// The key of the root component.
pub open spec fn root_key() -> Seq<char> {
    seq!['\u{1}']
}

/// The key of a leading `.` component.
pub open spec fn cur_dir_key() -> Seq<char> {
    seq!['\u{2}']
}

/// The key of a `..` component.
pub open spec fn parent_dir_key() -> Seq<char> {
    seq!['\u{3}']
}

/// The key of an ordinary component named `t`.
pub open spec fn normal_key(t: Seq<char>) -> Seq<char> {
    seq!['\u{4}'] + t
}

/// The components that the pieces `segs` give, empty and `.` pieces left out:
/// each as a key whose first character ranks the kind of component as
/// `std::path::Component` orders its variants.
pub open spec fn normal_parts(segs: Seq<Seq<char>>) -> Seq<Seq<char>>
    decreases segs.len(),
{
    if segs.len() == 0 {
        Seq::empty()
    } else {
        let rest = normal_parts(segs.drop_last());
        let last = segs.last();
        if last.len() == 0 || last == seq!['.'] {
            rest
        } else if last == seq!['.', '.'] {
            rest.push(parent_dir_key())
        } else {
            rest.push(normal_key(last))
        }
    }
}

/// The components of a Unix path as `Path::components` gives them: a root
/// first for an absolute path, a `.` first where a relative path starts with
/// one, then the pieces between slashes without empty and `.` pieces.
pub open spec fn path_key(p: Seq<char>) -> Seq<Seq<char>> {
    let segs = split_slash(p);
    if p.len() > 0 && p[0] == '/' {
        seq![root_key()] + normal_parts(segs.drop_first())
    } else if segs[0] == seq!['.'] {
        seq![cur_dir_key()] + normal_parts(segs.drop_first())
    } else {
        normal_parts(segs)
    }
}

/// `a` comes before `b` in lexicographic order of characters.
pub open spec fn chars_lt(a: Seq<char>, b: Seq<char>) -> bool
    decreases a.len(),
{
    if a.len() == 0 {
        b.len() > 0
    } else if b.len() == 0 {
        false
    } else if a[0] != b[0] {
        a[0] < b[0]
    } else {
        chars_lt(a.drop_first(), b.drop_first())
    }
}

/// `a` comes before `b` in lexicographic order of keys.
pub open spec fn keys_lt(a: Seq<Seq<char>>, b: Seq<Seq<char>>) -> bool
    decreases a.len(),
{
    if a.len() == 0 {
        b.len() > 0
    } else if b.len() == 0 {
        false
    } else if a[0] != b[0] {
        chars_lt(a[0], b[0])
    } else {
        keys_lt(a.drop_first(), b.drop_first())
    }
}

/// Path `a` sorts before path `b`, as `PathBuf`'s `Ord` has it: component by
/// component.
pub open spec fn path_lt(a: Seq<char>, b: Seq<char>) -> bool {
    keys_lt(path_key(a), path_key(b))
}

/// No sequence comes before itself.
pub proof fn lemma_chars_lt_irreflexive(a: Seq<char>)
    ensures
        !chars_lt(a, a),
    decreases a.len(),
{
    if a.len() > 0 {
        lemma_chars_lt_irreflexive(a.drop_first());
    }
}

/// Character order is transitive.
pub proof fn lemma_chars_lt_transitive(a: Seq<char>, b: Seq<char>, c: Seq<char>)
    requires
        chars_lt(a, b),
        chars_lt(b, c),
    ensures
        chars_lt(a, c),
    decreases a.len(),
{
    if a.len() > 0 && b.len() > 0 && c.len() > 0 && a[0] == b[0] && b[0] == c[0] {
        lemma_chars_lt_transitive(a.drop_first(), b.drop_first(), c.drop_first());
    }
}

/// Two different sequences are ordered one way or the other.
pub proof fn lemma_chars_lt_total(a: Seq<char>, b: Seq<char>)
    ensures
        a == b || chars_lt(a, b) || chars_lt(b, a),
    decreases a.len(),
{
    if a.len() > 0 && b.len() > 0 && a[0] == b[0] {
        lemma_chars_lt_total(a.drop_first(), b.drop_first());
        if a.drop_first() == b.drop_first() {
            assert(a =~= seq![a[0]] + a.drop_first());
            assert(b =~= seq![b[0]] + b.drop_first());
        }
    } else if a.len() == 0 && b.len() == 0 {
        assert(a =~= b);
    }
}

/// No key sequence comes before itself.
pub proof fn lemma_keys_lt_irreflexive(a: Seq<Seq<char>>)
    ensures
        !keys_lt(a, a),
    decreases a.len(),
{
    if a.len() > 0 {
        lemma_keys_lt_irreflexive(a.drop_first());
    }
}

/// Key order is transitive.
pub proof fn lemma_keys_lt_transitive(a: Seq<Seq<char>>, b: Seq<Seq<char>>, c: Seq<Seq<char>>)
    requires
        keys_lt(a, b),
        keys_lt(b, c),
    ensures
        keys_lt(a, c),
    decreases a.len(),
{
    if a.len() > 0 && b.len() > 0 && c.len() > 0 {
        if a[0] == b[0] && b[0] == c[0] {
            lemma_keys_lt_transitive(a.drop_first(), b.drop_first(), c.drop_first());
        } else if a[0] != b[0] && b[0] != c[0] {
            lemma_chars_lt_transitive(a[0], b[0], c[0]);
            if a[0] == c[0] {
                lemma_chars_lt_irreflexive(a[0]);
            }
        }
    }
}

/// Two different key sequences are ordered one way or the other.
pub proof fn lemma_keys_lt_total(a: Seq<Seq<char>>, b: Seq<Seq<char>>)
    ensures
        a == b || keys_lt(a, b) || keys_lt(b, a),
    decreases a.len(),
{
    if a.len() > 0 && b.len() > 0 {
        if a[0] == b[0] {
            lemma_keys_lt_total(a.drop_first(), b.drop_first());
            if a.drop_first() == b.drop_first() {
                assert(a =~= seq![a[0]] + a.drop_first());
                assert(b =~= seq![b[0]] + b.drop_first());
            }
        } else {
            lemma_chars_lt_total(a[0], b[0]);
        }
    } else if a.len() == 0 && b.len() == 0 {
        assert(a =~= b);
    }
}

/// Path order is a strict weak order: irreflexive, transitive, and paths
/// with the same components are interchangeable.
pub proof fn lemma_path_lt_order(a: Seq<char>, b: Seq<char>, c: Seq<char>)
    ensures
        !path_lt(a, a),
        path_lt(a, b) && path_lt(b, c) ==> path_lt(a, c),
        path_lt(a, b) ==> !path_lt(b, a),
        !path_lt(a, b) && !path_lt(b, a) ==> path_key(a) == path_key(b),
{
    lemma_keys_lt_irreflexive(path_key(a));
    lemma_keys_lt_total(path_key(a), path_key(b));
    if path_lt(a, b) && path_lt(b, c) {
        lemma_keys_lt_transitive(path_key(a), path_key(b), path_key(c));
    }
    if path_lt(a, b) && path_lt(b, a) {
        lemma_keys_lt_transitive(path_key(a), path_key(b), path_key(a));
    }
}

/// The pieces of `p` between slashes, in order.
pub fn split_on_slash(p: &str) -> (r: Vec<String>)
    ensures
        strings_view(r@) == split_slash(p@),
{
    let n = p.unicode_len();
    let mut segs: Vec<String> = Vec::new();
    let mut start: usize = 0;
    let mut i: usize = 0;
    assert(p@.subrange(0, 0) =~= Seq::<char>::empty());
    assert(strings_view(segs@).push(p@.subrange(0, 0)) =~= split_slash(
        p@.subrange(0, 0),
    ));
    while i < n
        invariant
            n == p@.len(),
            start <= i <= n,
            strings_view(segs@).push(p@.subrange(start as int, i as int))
                == split_slash(p@.subrange(0, i as int)),
        decreases n - i,
    {
        let ghost prev = p@.subrange(0, i as int);
        let ghost next = p@.subrange(0, i + 1);
        assert(next.drop_last() =~= prev);
        proof {
            lemma_split_slash_nonempty(prev);
        }
        if p.get_char(i) == '/' {
            let seg = substring(p, start, i);
            segs.push(seg);
            start = i + 1;
            assert(strings_view(segs@) =~= split_slash(prev));
            assert(p@.subrange(start as int, i + 1) =~= Seq::<char>::empty());
            assert(next.last() == '/');
            assert(split_slash(next) == split_slash(prev).push(Seq::<char>::empty()));
            assert(strings_view(segs@).push(p@.subrange(start as int, i + 1))
                =~= split_slash(next));
        } else {
            let ghost cur = p@.subrange(start as int, i as int);
            let ghost sv = strings_view(segs@);
            assert(next.last() == p@[i as int]);
            assert(p@.subrange(start as int, i + 1) =~= cur.push(p@[i as int]));
            assert(split_slash(prev) == sv.push(cur));
            assert(split_slash(next) == sv.push(cur).update(sv.len() as int, cur.push(p@[i as int])));
            assert(sv.push(cur).update(sv.len() as int, cur.push(p@[i as int])) =~= sv.push(cur.push(p@[i as int])));
            assert(strings_view(segs@).push(p@.subrange(start as int, i + 1))
                =~= split_slash(next));
        }
        i += 1;
    }
    let last = substring(p, start, n);
    segs.push(last);
    assert(p@.subrange(0, n as int) =~= p@);
    assert(strings_view(segs@) =~= split_slash(p@));
    segs
}

/// The name of the last component, where it is an ordinary one
/// (`Path::file_name`).
pub open spec fn spec_file_name(p: Seq<char>) -> Option<Seq<char>> {
    let k = path_key(p);
    if k.len() > 0 && k.last().len() > 0 && k.last()[0] == '\u{4}' {
        Some(k.last().drop_first())
    } else {
        None
    }
}

/// The view of a list of strings.
pub open spec fn strings_view(v: Seq<String>) -> Seq<Seq<char>> {
    v.map_values(|x: String| x@)
}

/// The components of `p`, each as a key (see `path_key`).
pub fn path_components(p: &str) -> (r: Vec<String>)
    ensures
        strings_view(r@) == path_key(p@),
{
    proof {
        reveal_strlit("\u{1}");
        reveal_strlit("\u{2}");
        reveal_strlit("\u{3}");
        reveal_strlit("\u{4}");
        lemma_split_slash_nonempty(p@);
    }
    let segs = split_on_slash(p);
    let ghost sv = strings_view(segs@);
    assert(sv.len() == segs@.len());
    let mut out: Vec<String> = Vec::new();
    let mut start: usize = 0;
    let n = p.unicode_len();
    let first = &segs[0];
    if n > 0 && p.get_char(0) == '/' {
        out.push(String::from_str("\u{1}"));
        start = 1;
    } else if first.unicode_len() == 1 && first.get_char(0) == '.' {
        assert(sv[0] =~= seq!['.']);
        out.push(String::from_str("\u{2}"));
        start = 1;
    } else {
        assert(sv[0] != seq!['.']) by {
            if sv[0] == seq!['.'] {
                assert(sv[0].len() == 1);
            }
        }
    }
    let ghost head = strings_view(out@);
    assert(p@.len() > 0 && p@[0] == '/' ==> head =~~= seq![root_key()]);
    assert(!(p@.len() > 0 && p@[0] == '/') && sv[0] == seq!['.'] ==> head =~~= seq![cur_dir_key()]);
    assert(!(p@.len() > 0 && p@[0] == '/') && sv[0] != seq!['.'] ==> head =~= Seq::<Seq<char>>::empty());
    assert(sv.subrange(start as int, start as int) =~= Seq::<Seq<char>>::empty());
    assert(strings_view(out@) =~= head + normal_parts(sv.subrange(start as int, start as int)));
    let mut j: usize = start;
    while j < segs.len()
        invariant
            sv == strings_view(segs@),
            sv.len() == segs@.len(),
            start <= j <= segs@.len(),
            sv == split_slash(p@),
            p@.len() > 0 && p@[0] == '/' ==> head == seq![root_key()] && start == 1,
            !(p@.len() > 0 && p@[0] == '/') && sv[0] == seq!['.'] ==> head == seq![cur_dir_key()]
                && start == 1,
            !(p@.len() > 0 && p@[0] == '/') && sv[0] != seq!['.'] ==> head == Seq::<Seq<char>>::empty()
                && start == 0,
            strings_view(out@) == head + normal_parts(sv.subrange(start as int, j as int)),
        decreases segs.len() - j,
    {
        let seg = &segs[j];
        let len = seg.unicode_len();
        let ghost x = sv.subrange(start as int, j + 1);
        assert(x.drop_last() =~= sv.subrange(start as int, j as int));
        assert(x.last() == seg@);
        if len == 0 || (len == 1 && seg.get_char(0) == '.') {
            assert(len == 1 ==> seg@ =~= seq!['.']);
        } else if len == 2 && seg.get_char(0) == '.' && seg.get_char(1) == '.' {
            assert(seg@ =~= seq!['.', '.']);
            assert(seg@ != seq!['.']) by { assert(seg@.len() != 1); }
            let ghost old_out = strings_view(out@);
            proof {
                reveal_strlit("\u{3}");
            }
            let k = String::from_str("\u{3}");
            assert(k@ =~= parent_dir_key());
            out.push(k);
            assert(strings_view(out@) =~= old_out.push(parent_dir_key()));
            assert(normal_parts(x) == normal_parts(x.drop_last()).push(parent_dir_key()));
            assert(strings_view(out@) =~= head + normal_parts(x));
        } else {
            assert(seg@ != seq!['.']) by {
                if seg@ == seq!['.'] {
                    assert(seg@.len() == 1 && seg@[0] == '.');
                }
            }
            assert(seg@ != seq!['.', '.']) by {
                if seg@ == seq!['.', '.'] {
                    assert(seg@.len() == 2 && seg@[0] == '.' && seg@[1] == '.');
                }
            }
            let ghost old_out = strings_view(out@);
            proof {
                reveal_strlit("\u{4}");
            }
            let k = join2("\u{4}", seg);
            assert(k@ =~= normal_key(seg@));
            out.push(k);
            assert(strings_view(out@) =~= old_out.push(normal_key(seg@)));
            assert(normal_parts(x) == normal_parts(x.drop_last()).push(normal_key(seg@)));
            assert(strings_view(out@) =~= head + normal_parts(x));
        }
        j += 1;
    }
    assert(sv.subrange(1, sv.len() as int) =~= sv.drop_first());
    assert(sv.subrange(0, sv.len() as int) =~= sv);
    assert(head + normal_parts(sv.subrange(start as int, sv.len() as int)) =~= path_key(p@));
    out
}

/// `a` comes before `b` in character order.
pub fn chars_less(a: &str, b: &str) -> (r: bool)
    ensures
        r == chars_lt(a@, b@),
{
    let n = a.unicode_len();
    let m = b.unicode_len();
    let mut i: usize = 0;
    assert(a@.skip(0) =~= a@);
    assert(b@.skip(0) =~= b@);
    while i < n && i < m && a.get_char(i) == b.get_char(i)
        invariant
            n == a@.len(),
            m == b@.len(),
            i <= n,
            i <= m,
            chars_lt(a@, b@) == chars_lt(a@.skip(i as int), b@.skip(i as int)),
        decreases n - i,
    {
        assert(a@.skip(i as int).drop_first() =~= a@.skip(i + 1));
        assert(b@.skip(i as int).drop_first() =~= b@.skip(i + 1));
        i += 1;
    }
    if i == n {
        i < m
    } else if i == m {
        false
    } else {
        a.get_char(i) < b.get_char(i)
    }
}

/// `a` comes before `b` in key order.
pub fn keys_less(a: &Vec<String>, b: &Vec<String>) -> (r: bool)
    ensures
        r == keys_lt(strings_view(a@), strings_view(b@)),
{
    let ghost av = strings_view(a@);
    let ghost bv = strings_view(b@);
    let n = a.len();
    let m = b.len();
    let mut i: usize = 0;
    assert(av.skip(0) =~= av);
    assert(bv.skip(0) =~= bv);
    while i < n && i < m && a[i] == b[i]
        invariant
            n == av.len(),
            m == bv.len(),
            av == strings_view(a@),
            bv == strings_view(b@),
            i <= n,
            i <= m,
            keys_lt(av, bv) == keys_lt(av.skip(i as int), bv.skip(i as int)),
        decreases n - i,
    {
        assert(av.skip(i as int).drop_first() =~= av.skip(i + 1));
        assert(bv.skip(i as int).drop_first() =~= bv.skip(i + 1));
        i += 1;
    }
    if i == n {
        i < m
    } else if i == m {
        false
    } else {
        assert(av.skip(i as int)[0] == a[i as int]@);
        assert(bv.skip(i as int)[0] == b[i as int]@);
        chars_less(&a[i], &b[i])
    }
}

/// Path `a` sorts before path `b` (`PathBuf`'s `Ord`).
pub fn path_less(a: &str, b: &str) -> (r: bool)
    ensures
        r == path_lt(a@, b@),
{
    keys_less(&path_components(a), &path_components(b))
}

/// `Path::file_name`: the last component where it is an ordinary name.
pub fn file_name(p: &str) -> (r: Option<String>)
    ensures
        match r {
            Some(t) => spec_file_name(p@) == Some(t@),
            None => spec_file_name(p@) is None,
        },
{
    let k = path_components(p);
    let len = k.len();
    if len == 0 {
        return None;
    }
    let last = &k[len - 1];
    assert(strings_view(k@).last() == last@);
    let l = last.unicode_len();
    if l > 0 && last.get_char(0) == '\u{4}' {
        Some(substring(last, 1, l))
    } else {
        None
    }
}

} // verus!
