//! Helpers over URLs: the scan depth of a target, and the length of a
//! URL's last path segment.

use vstd::prelude::*;

use crate::urls::parse_absolute_url;
use crate::urls::url_ok;
use crate::urls::url_path;
use crate::urls::UrlInfo;
use crate::urls::UrlParse;

verus! {

/// The number of occurrences of `c` in `s`.
pub open spec fn count_char(s: Seq<char>, c: char) -> nat
    decreases s.len(),
{
    if s.len() == 0 {
        0nat
    } else {
        count_char(s.drop_last(), c) + (if s.last() == c {
            1nat
        } else {
            0nat
        })
    }
}

/// The characters after the last slash of `s` (all of `s` when it has
/// none).
pub open spec fn suffix_after_last_slash(s: Seq<char>) -> Seq<char>
    decreases s.len(),
{
    if s.len() == 0 {
        s
    } else if s.last() == '/' {
        Seq::<char>::empty()
    } else {
        suffix_after_last_slash(s.drop_last()).push(s.last())
    }
}

/// The depth of a target URL: the target is first normalized to end in a
/// slash, and its depth is the number of `/`-separated path segments of
/// the parsed URL. A URL has such segments exactly when its path starts
/// with a slash, and then the segment count equals the number of slashes
/// in the path. A string that does not parse, or a URL whose path does
/// not start with a slash (one that cannot be a base, or a non-special
/// URL with an empty path), has depth zero.
pub open spec fn spec_depth(target: Seq<char>) -> nat {
    let t = if target.len() > 0 && target.last() == '/' {
        target
    } else {
        target.push('/')
    };
    if url_ok(t) && url_path(t).len() > 0 && url_path(t)[0] == '/' {
        count_char(url_path(t), '/')
    } else {
        0nat
    }
}

/// The length of the last `/`-separated piece of a URL path, the piece
/// opened by a trailing slash not counting: `/stuff` has length five,
/// `/stuff/` the same, `/` zero. A path that does not start with a slash
/// has length zero.
pub open spec fn spec_url_path_length(path: Seq<char>) -> nat {
    if path.len() == 0 || path[0] != '/' {
        0nat
    } else {
        let t = path.drop_first();
        let u = if t.len() > 0 && t.last() == '/' {
            t.drop_last()
        } else {
            t
        };
        suffix_after_last_slash(u).len()
    }
}

/// Count the occurrences of `/` in `s`.
fn count_slashes(s: &str) -> (n: usize)
    ensures
        n == count_char(s@, '/'),
{
    let len = s.unicode_len();
    let mut n: usize = 0;
    let mut i: usize = 0;
    while i < len
        invariant
            i <= len,
            len == s@.len(),
            n == count_char(s@.take(i as int), '/'),
            n <= i,
        decreases len - i,
    {
        let c = s.get_char(i);
        proof {
            assert(s@.take(i as int + 1).drop_last() =~= s@.take(i as int));
            assert(s@.take(i as int + 1).last() == s@[i as int]);
        }
        if c == '/' {
            n = n + 1;
        }
        i = i + 1;
    }
    proof {
        assert(s@.take(len as int) =~= s@);
    }
    n
}

/// The current depth of a target URL: `http://localhost` and
/// `http://localhost/` are depth one, `http://localhost/stuff` depth two.
/// Relative fragments and strings that do not parse have depth zero.
pub fn get_current_depth(target: &str) -> (d: usize)
    ensures
        d == spec_depth(target@),
{
    let n = target.unicode_len();
    let mut t = String::from_str(target);
    let ends_slash = n > 0 && target.get_char(n - 1) == '/';
    if !ends_slash {
        t.append("/");
        proof {
            reveal_strlit("/");
            assert("/"@ =~= seq!['/']);
            assert(t@ =~= target@.push('/'));
        }
    }
    match parse_absolute_url(t.as_str()) {
        UrlParse::Absolute(info) => {
            let path = info.path.as_str();
            let path_len = path.unicode_len();
            if path_len > 0 && path.get_char(0) == '/' {
                count_slashes(path)
            } else {
                0
            }
        },
        UrlParse::Relative => 0,
        UrlParse::Invalid => 0,
    }
}

/// The length of the last path segment of a parsed URL: `/stuff` gives
/// five, the root path gives zero.
pub fn get_url_path_length(url: &UrlInfo) -> (n: u64)
    ensures
        n == spec_url_path_length(url.path@),
{
    let path = url.path.as_str();
    let len = path.unicode_len();
    if len == 0 {
        return 0;
    }
    if path.get_char(0) != '/' {
        return 0;
    }
    let hi: usize = if len > 1 && path.get_char(len - 1) == '/' {
        len - 1
    } else {
        len
    };
    proof {
        let t = path@.drop_first();
        assert(t =~= path@.subrange(1, path@.len() as int));
        if t.len() > 0 && t.last() == '/' {
            assert(t.drop_last() =~= path@.subrange(1, hi as int));
        } else {
            assert(t =~= path@.subrange(1, hi as int));
        }
    }
    let mut j: usize = hi;
    while j > 1
        invariant
            1 <= hi <= len,
            1 <= j <= hi,
            len == path@.len(),
            suffix_after_last_slash(path@.subrange(1, hi as int)).len()
                == suffix_after_last_slash(path@.subrange(1, j as int)).len() + (hi - j),
        ensures
            1 <= j <= hi,
            len == path@.len(),
            suffix_after_last_slash(path@.subrange(1, hi as int)).len()
                == suffix_after_last_slash(path@.subrange(1, j as int)).len() + (hi - j),
            j > 1 ==> path@[j as int - 1] == '/',
        decreases j,
    {
        let c = path.get_char(j - 1);
        if c == '/' {
            break ;
        }
        proof {
            let v = path@.subrange(1, j as int);
            assert(v.len() > 0);
            assert(v.last() == path@[j as int - 1]);
            assert(v.drop_last() =~= path@.subrange(1, j as int - 1));
        }
        j = j - 1;
    }
    proof {
        let v = path@.subrange(1, j as int);
        if j > 1 {
            assert(v.len() > 0);
            assert(v.last() == path@[j as int - 1]);
            assert(suffix_after_last_slash(v) =~= Seq::<char>::empty());
        } else {
            assert(v =~= Seq::<char>::empty());
        }
    }
    let result: usize = hi - j;
    result as u64
}

} // verus!
