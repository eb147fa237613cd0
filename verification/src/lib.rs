//! Data-access core of a small user-account service, together with the
//! terminal-styling helpers its process uses for logging.
//!
//! The heart of the crate is the storage model: a lazily initialised
//! connection manager ([`connection::ConnectionManager`]) and a user
//! repository ([`user::UserModel`]) whose create/read/update operations
//! enforce a hash-verified password-change policy inside a single atomic
//! state transition.  Passwords are stored only as salted digests
//! ([`hash`]), and the only shape meant to cross the system boundary is
//! the [`user::UserResult`] projection.

use vstd::prelude::*;

pub mod colors;
pub mod connection;
pub mod error;
pub mod hash;
pub mod log_format;
pub mod user;

verus! {

/// Wire-format envelope for replies the surrounding service sends out:
/// a status code, a human-readable message, and an optional payload.
pub struct Response<T> {
    pub status: u16,
    pub message: String,
    pub data: Option<T>,
}

/// Index of the last occurrence of `c` in `s`, or -1 when absent.
pub open spec fn spec_last_index_of(s: Seq<char>, c: char) -> int
    decreases s.len(),
{
    if s.len() == 0 {
        -1
    } else if s.last() == c {
        s.len() - 1
    } else {
        spec_last_index_of(s.drop_last(), c)
    }
}

/// What [`spec_last_index_of`] returns: an in-range index of `c` after
/// which `c` never occurs again, or -1 with `c` nowhere in `s`.
pub proof fn lemma_last_index_of(s: Seq<char>, c: char)
    ensures
        -1 <= spec_last_index_of(s, c) < s.len(),
        spec_last_index_of(s, c) >= 0 ==> s[spec_last_index_of(s, c)] == c,
        forall|j: int| spec_last_index_of(s, c) < j < s.len() ==> s[j] != c,
    decreases s.len(),
{
    if s.len() > 0 && s.last() != c {
        lemma_last_index_of(s.drop_last(), c);
        assert forall|j: int| spec_last_index_of(s, c) < j < s.len() implies s[j] != c by {
            if j < s.len() - 1 {
                assert(s.drop_last()[j] == s[j]);
            }
        }
    }
}

/// The extension of the final `/`-separated component of a filename:
/// the text after the component's last `.`, provided that dot is
/// neither absent nor leading and the component is not `..`.
pub open spec fn spec_extension(s: Seq<char>) -> Option<Seq<char>> {
    let start = spec_last_index_of(s, '/') + 1;
    let name = s.subrange(start, s.len() as int);
    if name == seq!['.', '.'] {
        None
    } else {
        let d = spec_last_index_of(name, '.');
        if d <= 0 {
            None
        } else {
            Some(name.subrange(d + 1, name.len() as int))
        }
    }
}

/// The extension of the final path component of `filename`, if any:
/// the text after the component's last dot, unless that dot is missing
/// or leading or the component is `..`.
#[verifier::loop_isolation(false)]
pub fn get_extension_from_filename(filename: &str) -> (r: Option<&str>)
    ensures
        match r {
            Some(e) => spec_extension(filename@) == Some(e@),
            None => spec_extension(filename@) is None,
        },
{
    let n = filename.unicode_len();
    let mut start: usize = 0;
    let mut i: usize = 0;
    while i < n
        invariant
            i <= n,
            start <= i,
            start as int == spec_last_index_of(filename@.take(i as int), '/') + 1,
        decreases n - i,
    {
        let c = filename.get_char(i);
        proof {
            assert(filename@.take(i as int + 1).drop_last() =~= filename@.take(i as int));
            assert(filename@.take(i as int + 1).last() == filename@[i as int]);
        }
        if c == '/' {
            start = i + 1;
        }
        i += 1;
    }
    proof {
        assert(filename@.take(n as int) =~= filename@);
    }
    let ghost name = filename@.subrange(start as int, n as int);
    if n - start == 2 && filename.get_char(start) == '.' && filename.get_char(start + 1) == '.' {
        proof {
            assert(name =~= seq!['.', '.']);
        }
        return None;
    }
    proof {
        if name == seq!['.', '.'] {
            assert(name.len() == 2);
            assert(name[0] == '.' && name[1] == '.');
            assert(filename@[start as int] == '.');
            assert(filename@[start as int + 1] == '.');
            assert(false);
        }
    }
    let m = n - start;
    let mut d: usize = 0;
    let mut found = false;
    let mut k: usize = 0;
    while k < m
        invariant
            k <= m,
            found ==> d < k,
            (if found {
                d as int
            } else {
                -1
            }) == spec_last_index_of(name.take(k as int), '.'),
        decreases m - k,
    {
        let c = filename.get_char(start + k);
        proof {
            assert(name.take(k as int + 1).drop_last() =~= name.take(k as int));
            assert(name.take(k as int + 1).last() == name[k as int]);
            assert(name[k as int] == filename@[start as int + k as int]);
        }
        if c == '.' {
            d = k;
            found = true;
        }
        k += 1;
    }
    proof {
        assert(name.take(m as int) =~= name);
    }
    if !found || d == 0 {
        return None;
    }
    let ext = filename.substring_char(start + d + 1, n);
    proof {
        assert(ext@ =~= name.subrange(d as int + 1, name.len() as int));
    }
    Some(ext)
}

} // verus!
