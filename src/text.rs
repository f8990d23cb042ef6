//! Splitting on spaces and rewriting a directory relative to the home directory.

use vstd::prelude::*;

verus! {

/// The pieces of `s` between single spaces, empty pieces included, as `str::split(' ')`
/// yields them.
pub open spec fn split_spaces(s: Seq<char>) -> Seq<Seq<char>>
    decreases s.len(),
{
    if s.len() == 0 {
        seq![Seq::<char>::empty()]
    } else {
        let rest = split_spaces(s.drop_last());
        if s.last() == ' ' {
            rest.push(Seq::<char>::empty())
        } else {
            rest.update(rest.len() - 1, rest.last().push(s.last()))
        }
    }
}

proof fn lemma_split_nonempty(s: Seq<char>)
    ensures
        split_spaces(s).len() >= 1,
    decreases s.len(),
{
    if s.len() > 0 {
        lemma_split_nonempty(s.drop_last());
    }
}

/// The views of a vector of strings.
pub open spec fn views(v: Seq<String>) -> Seq<Seq<char>> {
    v.map_values(|x: String| x@)
}

/// Splits `s` at every space.
pub fn split_at_spaces(s: &str) -> (r: Vec<String>)
    ensures
        views(r@) == split_spaces(s@),
{
    let n = s.unicode_len();
    let mut pieces: Vec<String> = Vec::new();
    let mut start: usize = 0;
    let mut i: usize = 0;
    assert(s@.take(0) =~= Seq::<char>::empty());
    assert(views(pieces@) =~= Seq::<Seq<char>>::empty());
    assert(s@.subrange(0, 0) =~= Seq::<char>::empty());
    assert(views(pieces@).push(s@.subrange(0, 0)) =~= split_spaces(s@.take(0)));
    while i < n
        invariant
            n == s@.len(),
            start <= i <= n,
            views(pieces@).push(s@.subrange(start as int, i as int)) =~= split_spaces(s@.take(i as int)),
        decreases n - i,
    {
        let c = s.get_char(i);
        proof {
            let t = s@.take(i + 1);
            assert(t.drop_last() =~= s@.take(i as int));
            assert(t.last() == c);
            lemma_split_nonempty(s@.take(i as int));
        }
        if c == ' ' {
            let ghost before = views(pieces@);
            let piece = String::from_str(s.substring_char(start, i));
            pieces.push(piece);
            assert(views(pieces@) =~= before.push(s@.subrange(start as int, i as int)));
            start = i + 1;
            assert(s@.subrange(start as int, i + 1) =~= Seq::<char>::empty());
            assert(views(pieces@).push(s@.subrange(start as int, i + 1)) =~= split_spaces(s@.take(i + 1)));
        } else {
            assert(s@.subrange(start as int, i + 1) =~= s@.subrange(start as int, i as int).push(c));
            assert(views(pieces@).push(s@.subrange(start as int, i + 1)) =~= split_spaces(s@.take(i + 1)));
        }
        i += 1;
    }
    let last = String::from_str(s.substring_char(start, n));
    pieces.push(last);
    assert(s@.take(n as int) =~= s@);
    assert(views(pieces@) =~= split_spaces(s@));
    pieces
}

/// `s` without the slashes at its start.
pub open spec fn trim_leading_slashes(s: Seq<char>) -> Seq<char>
    decreases s.len(),
{
    if s.len() > 0 && s[0] == '/' {
        trim_leading_slashes(s.drop_first())
    } else {
        s
    }
}

/// `s` without the slashes at its end.
pub open spec fn trim_trailing_slashes(s: Seq<char>) -> Seq<char>
    decreases s.len(),
{
    if s.len() > 0 && s.last() == '/' {
        trim_trailing_slashes(s.drop_last())
    } else {
        s
    }
}

/// The home directory without trailing slashes, but the root stays `/`.
pub open spec fn home_base(home: Seq<char>) -> Seq<char> {
    if home.len() > 0 && trim_trailing_slashes(home).len() == 0 {
        home.take(1)
    } else {
        trim_trailing_slashes(home)
    }
}

/// Whether directory `cwd` is `home` or lies below it, compared name by name.
pub open spec fn is_under(cwd: Seq<char>, home: Seq<char>) -> bool {
    &&& 0 < home.len() <= cwd.len()
    &&& cwd.take(home.len() as int) == home
    &&& (home.len() == cwd.len() || cwd[home.len() as int] == '/' || home.last() == '/')
}

/// The directory as shown: `~` for the home directory, `~/rest` below it, else unchanged.
pub open spec fn home_relative(cwd: Seq<char>, home: Option<Seq<char>>) -> Seq<char> {
    match home {
        Some(h) => if is_under(cwd, home_base(h)) {
            let rel = trim_leading_slashes(cwd.skip(home_base(h).len() as int));
            if rel.len() == 0 {
                "~"@
            } else {
                "~/"@ + rel
            }
        } else {
            cwd
        },
        None => cwd,
    }
}

/// The home directory as it is compared: `home_base`.
fn base_of(h: &str) -> (r: &str)
    ensures
        r@ == home_base(h@),
{
    let k = h.unicode_len();
    let mut j: usize = k;
    assert(h@.take(k as int) =~= h@);
    while j > 0 && h.get_char(j - 1) == '/'
        invariant
            j <= k,
            k == h@.len(),
            trim_trailing_slashes(h@) == trim_trailing_slashes(h@.take(j as int)),
        decreases j,
    {
        assert(h@.take(j as int).drop_last() =~= h@.take(j - 1));
        j -= 1;
    }
    proof {
        if j > 0 {
            assert(h@.take(j as int).last() == h@[j - 1]);
        }
    }
    if j == 0 && k > 0 {
        j = 1;
    }
    h.substring_char(0, j)
}

/// Rewrites `cwd` relative to `home`, when it is at or below it.
pub fn show_dir(cwd: &str, home: Option<&str>) -> (r: String)
    ensures
        r@ == home_relative(
            cwd@,
            match home {
                Some(h) => Some(h@),
                None => None,
            },
        ),
{
    match home {
        None => String::from_str(cwd),
        Some(full) => {
            let h = base_of(full);
            let n = cwd.unicode_len();
            let k = h.unicode_len();
            if k == 0 || k > n {
                return String::from_str(cwd);
            }
            let head = cwd.substring_char(0, k);
            if !crate::style::str_eq(head, h) {
                proof { assert(cwd@.take(k as int) =~= head@); }
                return String::from_str(cwd);
            }
            proof { assert(cwd@.take(k as int) =~= head@); }
            if !(k == n || cwd.get_char(k) == '/' || h.get_char(k - 1) == '/') {
                return String::from_str(cwd);
            }
            let mut i: usize = k;
            while i < n && cwd.get_char(i) == '/'
                invariant
                    k <= i <= n,
                    n == cwd@.len(),
                    trim_leading_slashes(cwd@.skip(k as int)) == trim_leading_slashes(cwd@.skip(i as int)),
                decreases n - i,
            {
                assert(cwd@.skip(i as int).drop_first() =~= cwd@.skip(i + 1));
                i += 1;
            }
            proof {
                if i < n {
                    assert(cwd@.skip(i as int)[0] == cwd@[i as int]);
                }
            }
            if i == n {
                assert(cwd@.skip(i as int).len() == 0);
                proof { reveal_strlit("~"); }
                String::from_str("~")
            } else {
                let rest = cwd.substring_char(i, n);
                assert(rest@ =~= cwd@.skip(i as int));
                let mut out = String::from_str("~/");
                out.append(rest);
                out
            }
        },
    }
}

} // verus!
