//! Paths inside the boot image.
//!
//! A destination path inside the image is a `/`-separated list of
//! components.  Empty components (from a leading root separator, a trailing
//! separator, or doubled separators) are skipped, not created.  The volume
//! matches names case-insensitively, so the image's contents are modelled as
//! a map keyed by the lower-cased, `/`-joined component list.

use vstd::prelude::*;
use vstd::string::*;

verus! {

/// The components of a path: maximal runs of non-separator characters, in
/// order.  Empty runs are dropped, so `"/a//b/"` has components `a`, `b`.
pub open spec fn components_of(s: Seq<char>) -> Seq<Seq<char>>
    decreases s.len(),
{
    if s.len() == 0 {
        Seq::empty()
    } else if s.last() == '/' {
        components_of(s.drop_last())
    } else if s.len() >= 2 && s[s.len() - 2] != '/' {
        let r = components_of(s.drop_last());
        r.update(r.len() - 1, r.last().push(s.last()))
    } else {
        components_of(s.drop_last()).push(seq![s.last()])
    }
}

/// The components, rejoined with single separators: the normal form of a
/// path.
pub open spec fn join_components(cs: Seq<Seq<char>>) -> Seq<char>
    decreases cs.len(),
{
    if cs.len() == 0 {
        Seq::empty()
    } else if cs.len() == 1 {
        cs[0]
    } else {
        join_components(cs.drop_last()) + seq!['/'] + cs.last()
    }
}

/// ASCII lower-casing of one character.
pub open spec fn lower_char(c: char) -> char {
    if 'A' <= c && c <= 'Z' {
        (c as u8 + 32) as char
    } else {
        c
    }
}

/// ASCII lower-casing of a whole path.  The volume matches names
/// case-insensitively, so two paths that agree up to case name the same
/// file.
pub open spec fn to_lower(s: Seq<char>) -> Seq<char> {
    s.map_values(|c: char| lower_char(c))
}

/// The key under which a path's file appears in the image model.
pub open spec fn norm_key(s: Seq<char>) -> Seq<char> {
    to_lower(join_components(components_of(s)))
}

/// Whether a character may appear in a component of a destination path.
///
/// This is the portable subset of what a FAT long name may hold: ASCII
/// letters, digits, and `$ % ' - _ @ ` ! ( ) { } . + , ; = [ ] ^ # &`.
/// Spaces and `~` are excluded so that a name can never collide with the
/// generated short form of a different name.
pub open spec fn component_char_ok(c: char) -> bool {
    ('a' <= c && c <= 'z') || ('A' <= c && c <= 'Z') || ('0' <= c && c <= '9') || c == '$' || c
        == '%' || c == '\'' || c == '-' || c == '_' || c == '@' || c == '`' || c == '!' || c == '('
        || c == ')' || c == '{' || c == '}' || c == '.' || c == '+' || c == ',' || c == ';' || c
        == '=' || c == '[' || c == ']' || c == '^' || c == '#' || c == '&'
}

/// Whether a component may name a file or directory in the image: non-empty,
/// made of permitted characters, and not ending in a dot (which also rules
/// out the special entries `.` and `..`, so a destination can never escape
/// the image root).
pub open spec fn component_ok(c: Seq<char>) -> bool {
    c.len() > 0 && (forall|i: int| 0 <= i < c.len() ==> component_char_ok(#[trigger] c[i]))
        && c.last() != '.'
}

/// Whether a path names a file the builder may create: it has at least one
/// component — the leaf — and every component is acceptable.
pub open spec fn valid_image_path(s: Seq<char>) -> bool {
    components_of(s).len() > 0 && (forall|k: int|
        0 <= k < components_of(s).len() ==> component_ok(#[trigger] components_of(s)[k]))
}

/// A path already in normal form: what the volume wrappers take.
pub open spec fn normalized_path(s: Seq<char>) -> bool {
    valid_image_path(s) && s == join_components(components_of(s))
}

/// A path that ends in a non-separator character has at least one component.
pub proof fn lemma_components_nonempty(s: Seq<char>)
    requires
        s.len() > 0,
        s.last() != '/',
    ensures
        components_of(s).len() > 0,
    decreases s.len(),
{
    if s.len() >= 2 && s[s.len() - 2] != '/' {
        lemma_components_nonempty(s.drop_last());
    }
}

/// A separator-free, non-empty path is its own single component.
pub proof fn lemma_components_no_sep(s: Seq<char>)
    requires
        s.len() > 0,
        forall|i: int| 0 <= i < s.len() ==> s[i] != '/',
    ensures
        components_of(s) =~= seq![s],
    decreases s.len(),
{
    if s.len() == 1 {
        assert(s.last() != '/');
        assert(components_of(s.drop_last()) =~= Seq::<Seq<char>>::empty());
        assert(components_of(s) =~= Seq::<Seq<char>>::empty().push(seq![s.last()]));
        assert(s =~= seq![s.last()]);
    } else {
        lemma_components_no_sep(s.drop_last());
        lemma_components_nonempty(s.drop_last());
        assert(components_of(s) =~= seq![s.drop_last().push(s.last())]);
        assert(s.drop_last().push(s.last()) =~= s);
    }
}

/// Splitting distributes over a separator: the components of
/// `s1 + "/" + s2` are those of `s1` followed by those of `s2`.
pub proof fn lemma_components_append_sep(s1: Seq<char>, s2: Seq<char>)
    ensures
        components_of(s1 + seq!['/'] + s2) =~= components_of(s1) + components_of(s2),
    decreases s2.len(),
{
    let s = s1 + seq!['/'] + s2;
    if s2.len() == 0 {
        assert(s.last() == '/');
        assert(s.drop_last() =~= s1);
        assert(components_of(s2) =~= Seq::<Seq<char>>::empty());
    } else {
        let t = s2.drop_last();
        let c = s2.last();
        lemma_components_append_sep(s1, t);
        assert(s.drop_last() =~= s1 + seq!['/'] + t);
        if c == '/' {
            assert(components_of(s2) == components_of(t));
        } else {
            assert(s.last() == c);
            assert(s.len() >= 2);
            if t.len() == 0 {
                assert(s[s.len() - 2] == '/');
                assert(components_of(s) =~= components_of(s1 + seq!['/'] + t).push(seq![c]));
                assert(components_of(s2) =~= components_of(t).push(seq![c]));
            } else {
                assert(s[s.len() - 2] == t.last());
                if t.last() == '/' {
                    assert(components_of(s) =~= components_of(s1 + seq!['/'] + t).push(seq![c]));
                    assert(components_of(s2) =~= components_of(t).push(seq![c]));
                } else {
                    lemma_components_nonempty(t);
                    let r = components_of(s1 + seq!['/'] + t);
                    let r2 = components_of(t);
                    assert(components_of(s) =~= r.update(r.len() - 1, r.last().push(c)));
                    assert(components_of(s2) =~= r2.update(r2.len() - 1, r2.last().push(c)));
                    assert(r =~= components_of(s1) + r2);
                    assert(r.last() == r2.last());
                    assert(r.update(r.len() - 1, r.last().push(c)) =~= components_of(s1)
                        + r2.update(r2.len() - 1, r2.last().push(c)));
                }
            }
        }
    }
}

/// Splitting inverts joining: rejoining a list of non-empty, separator-free
/// components and splitting again gives the list back.  This is what makes
/// the normal form of a path well-defined.
pub proof fn lemma_split_join(cs: Seq<Seq<char>>)
    requires
        cs.len() > 0,
        forall|k: int|
            0 <= k < cs.len() ==> (#[trigger] cs[k]).len() > 0 && (forall|i: int|
                0 <= i < cs[k].len() ==> cs[k][i] != '/'),
    ensures
        components_of(join_components(cs)) =~= cs,
    decreases cs.len(),
{
    if cs.len() == 1 {
        lemma_components_no_sep(cs[0]);
        assert(join_components(cs) == cs[0]);
    } else {
        lemma_split_join(cs.drop_last());
        lemma_components_no_sep(cs.last());
        lemma_components_append_sep(join_components(cs.drop_last()), cs.last());
        assert(components_of(join_components(cs)) =~= components_of(
            join_components(cs.drop_last()),
        ) + components_of(cs.last()));
        assert(components_of(join_components(cs)) =~= cs.drop_last() + seq![cs.last()]);
        assert(cs.drop_last() + seq![cs.last()] =~= cs);
    }
}

/// Whether one character may appear in a destination-path component.
pub fn char_ok(c: char) -> (b: bool)
    ensures
        b == component_char_ok(c),
{
    let u = c as u32;
    (97 <= u && u <= 122) || (65 <= u && u <= 90) || (48 <= u && u <= 57) || c == '$' || c == '%'
        || c == '\'' || c == '-' || c == '_' || c == '@' || c == '`' || c == '!' || c == '(' || c
        == ')' || c == '{' || c == '}' || c == '.' || c == '+' || c == ',' || c == ';' || c == '='
        || c == '[' || c == ']' || c == '^' || c == '#' || c == '&'
}

/// Whether a component may name a file or directory in the image.
pub fn component_ok_exec(s: &str) -> (b: bool)
    ensures
        b == component_ok(s@),
{
    let n = s.unicode_len();
    if n == 0 {
        return false;
    }
    let mut i: usize = 0;
    while i < n
        invariant
            n == s@.len(),
            i <= n,
            forall|j: int| 0 <= j < i ==> component_char_ok(#[trigger] s@[j]),
        decreases n - i,
    {
        if !char_ok(s.get_char(i)) {
            return false;
        }
        i = i + 1;
    }
    if s.get_char(n - 1) == '.' {
        return false;
    }
    true
}

/// Splits a path into its components.
pub fn split_components(path: &str) -> (r: Vec<String>)
    ensures
        r.deep_view() == components_of(path@),
{
    let n = path.unicode_len();
    let mut comps: Vec<String> = Vec::new();
    let mut i: usize = 0;
    let mut start: usize = 0;
    let mut in_comp: bool = false;
    while i < n
        invariant
            n == path@.len(),
            i <= n,
            in_comp ==> start < i && (forall|j: int|
                start <= j < i ==> path@[j] != '/') && comps.deep_view().push(
                path@.subrange(start as int, i as int),
            ) =~= components_of(path@.take(i as int)),
            !in_comp ==> (i == 0 || path@[i as int - 1] == '/') && comps.deep_view()
                =~= components_of(path@.take(i as int)),
        decreases n - i,
    {
        let ghost pre = path@.take(i as int);
        let ghost post = path@.take(i as int + 1);
        proof {
            assert(post.drop_last() =~= pre);
            assert(post.last() == path@[i as int]);
        }
        let c = path.get_char(i);
        if c == '/' {
            if in_comp {
                let ghost old_dv = comps.deep_view();
                let piece = path.substring_char(start, i).to_owned();
                comps.push(piece);
                proof {
                    assert(comps.deep_view() =~= old_dv.push(
                        path@.subrange(start as int, i as int),
                    ));
                }
                in_comp = false;
            }
            proof {
                assert(components_of(post) == components_of(pre));
            }
        } else {
            if !in_comp {
                proof {
                    if i == 0 {
                        assert(components_of(post) =~= components_of(pre).push(seq![path@[0]]));
                    } else {
                        assert(post.len() >= 2 && post[post.len() - 2] == '/');
                        assert(components_of(post) =~= components_of(pre).push(
                            seq![path@[i as int]],
                        ));
                    }
                    assert(path@.subrange(i as int, i as int + 1) =~= seq![path@[i as int]]);
                }
                start = i;
                in_comp = true;
            } else {
                proof {
                    assert(post.len() >= 2 && post[post.len() - 2] == path@[i as int - 1]);
                    assert(path@[i as int - 1] != '/');
                    let r = components_of(pre);
                    assert(r == comps.deep_view().push(path@.subrange(start as int, i as int)));
                    assert(r.last() == path@.subrange(start as int, i as int));
                    assert(components_of(post) =~= r.update(r.len() - 1, r.last().push(post.last())));
                    assert(r.last().push(post.last()) =~= path@.subrange(start as int, i as int + 1));
                    assert(r.update(r.len() - 1, path@.subrange(start as int, i as int + 1))
                        =~= comps.deep_view().push(path@.subrange(start as int, i as int + 1)));
                }
            }
        }
        i = i + 1;
    }
    proof {
        assert(path@.take(n as int) =~= path@);
    }
    if in_comp {
        let ghost old_dv = comps.deep_view();
        let piece = path.substring_char(start, n).to_owned();
        comps.push(piece);
        proof {
            assert(comps.deep_view() =~= old_dv.push(path@.subrange(start as int, n as int)));
        }
    }
    comps
}

/// Joins the first `n` of the given components back into a path.
pub fn join_prefix(comps: &Vec<String>, n: usize) -> (r: String)
    requires
        n <= comps@.len(),
    ensures
        r@ == join_components(comps.deep_view().take(n as int)),
{
    let mut out = String::new();
    let mut k: usize = 0;
    while k < n
        invariant
            n <= comps@.len(),
            k <= n,
            out@ == join_components(comps.deep_view().take(k as int)),
        decreases n - k,
    {
        let ghost pre = comps.deep_view().take(k as int);
        let ghost post = comps.deep_view().take(k as int + 1);
        proof {
            assert(post.drop_last() =~= pre);
            assert(post.last() == comps.deep_view()[k as int]);
        }
        if k > 0 {
            out.append("/");
            proof {
                reveal_strlit("/");
                assert("/"@ =~= seq!['/']);
            }
        }
        out.append(comps[k].as_str());
        proof {
            if k == 0 {
                assert(join_components(post) == post[0]);
            } else {
                assert(post.len() >= 2);
                assert(join_components(post) == join_components(pre) + seq!['/'] + post.last());
            }
        }
        k = k + 1;
    }
    out
}

/// Splits a destination path into components and checks that each may name
/// an entry in the image: returns the components exactly when the path is
/// acceptable.
pub fn split_image_path(path: &str) -> (r: Option<Vec<String>>)
    ensures
        r is Some <==> valid_image_path(path@),
        r matches Some(v) ==> v.deep_view() == components_of(path@),
{
    let comps = split_components(path);
    if comps.len() == 0 {
        return None;
    }
    let mut k: usize = 0;
    while k < comps.len()
        invariant
            comps.deep_view() == components_of(path@),
            k <= comps@.len(),
            forall|j: int| 0 <= j < k ==> component_ok(#[trigger] comps.deep_view()[j]),
        decreases comps@.len() - k,
    {
        let ok = component_ok_exec(comps[k].as_str());
        proof {
            assert(comps@[k as int]@ == components_of(path@)[k as int]);
        }
        if !ok {
            proof {
                assert(!component_ok(components_of(path@)[k as int]));
            }
            return None;
        }
        k = k + 1;
    }
    Some(comps)
}

} // verus!
