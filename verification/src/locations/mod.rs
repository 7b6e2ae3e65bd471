//! Default locations, under `.aud` in the user's home directory:
//!
//! ```text
//! .
//! ├── bin
//! │  └── aud
//! ├── log
//! │  └── aud.log
//! └── lua
//!    ├── api
//!    ├── aud
//!    └── examples
//! ```
//!
//! Each location is built from the home directory, which the caller looks
//! up; `None` stands for a home directory that could not be found.

use vstd::prelude::*;

pub mod lua;

verus! {

/// `part` joined to the path `base`, as a Unix path is extended: an absolute
/// `part` replaces `base`; otherwise a separator is put between them unless
/// `base` is empty or already ends with one.
pub open spec fn join_path(base: Seq<char>, part: Seq<char>) -> Seq<char> {
    if part.len() > 0 && part[0] == '/' {
        part
    } else if base.len() == 0 {
        part
    } else if base.last() == '/' {
        base + part
    } else {
        base + seq!['/'] + part
    }
}

/// `part` joined to the path `base` (see `join_path`).
pub fn join(base: &str, part: &str) -> (r: String)
    ensures
        r@ == join_path(base@, part@),
{
    let part_len = part.unicode_len();
    if part_len > 0 && part.get_char(0) == '/' {
        return part.to_string();
    }
    let base_len = base.unicode_len();
    let mut r = base.to_string();
    if base_len > 0 && base.get_char(base_len - 1) != '/' {
        r.append("/");
        proof {
            reveal_strlit("/");
        }
    }
    r.append(part);
    assert(r@ =~= join_path(base@, part@));
    r
}

/// The `.aud` directory under the home directory `home`.
pub open spec fn aud_path(home: Seq<char>) -> Seq<char> {
    join_path(home, seq!['.', 'a', 'u', 'd'])
}

/// `.aud` under the home directory.
pub fn aud(home: &Option<String>) -> (r: Option<String>)
    ensures
        r matches Some(p) ==> home matches Some(h) && p@ == aud_path(h@),
        r is None <==> home is None,
{
    match home {
        Some(h) => {
            let r = join(h.as_str(), ".aud");
            proof {
                reveal_strlit(".aud");
            }
            Some(r)
        },
        None => None,
    }
}

/// `.aud/bin` under the home directory.
pub fn bin(home: &Option<String>) -> (r: Option<String>)
    ensures
        r matches Some(p) ==> home matches Some(h) && p@ == join_path(aud_path(h@), seq!['b', 'i', 'n']),
        r is None <==> home is None,
{
    let a = aud(home)?;
    proof {
        reveal_strlit("bin");
    }
    Some(join(a.as_str(), "bin"))
}

/// `.aud/lua/` under the home directory, as a path.
pub open spec fn lua_path(home: Seq<char>) -> Seq<char> {
    join_path(aud_path(home), seq!['l', 'u', 'a'])
}

/// `.aud/lua` under the home directory.
pub fn lua(home: &Option<String>) -> (r: Option<String>)
    ensures
        r matches Some(p) ==> home matches Some(h) && p@ == lua_path(h@),
        r is None <==> home is None,
{
    let a = aud(home)?;
    proof {
        reveal_strlit("lua");
    }
    Some(join(a.as_str(), "lua"))
}

/// `.aud/log` under the home directory, as a path.
pub open spec fn log_path(home: Seq<char>) -> Seq<char> {
    join_path(aud_path(home), seq!['l', 'o', 'g'])
}

/// `.aud/log` under the home directory.
pub fn log(home: &Option<String>) -> (r: Option<String>)
    ensures
        r matches Some(p) ==> home matches Some(h) && p@ == log_path(h@),
        r is None <==> home is None,
{
    let a = aud(home)?;
    proof {
        reveal_strlit("log");
    }
    Some(join(a.as_str(), "log"))
}

/// The log file `<name>.log` in `.aud/log` under the home directory.
pub fn log_file(home: &Option<String>, name: &str) -> (r: Option<String>)
    ensures
        r matches Some(p) ==> home matches Some(h) && p@ == join_path(
            log_path(h@),
            name@ + seq!['.', 'l', 'o', 'g'],
        ),
        r is None <==> home is None,
{
    let dir = log(home)?;
    let mut file = name.to_string();
    file.append(".log");
    proof {
        reveal_strlit(".log");
    }
    Some(join(dir.as_str(), file.as_str()))
}

/// The last component of `path`: the text after its last separator, all of
/// it when it has none (and none when it ends with a separator).
pub open spec fn file_name(path: Seq<char>) -> Seq<char>
    decreases path.len(),
{
    if path.len() == 0 {
        path
    } else if path.last() == '/' {
        Seq::empty()
    } else {
        file_name(path.drop_last()).push(path.last())
    }
}

/// The last component of `path` (see `file_name`).
pub fn path_file_name(path: &str) -> (r: &str)
    ensures
        r@ == file_name(path@),
{
    let n = path.unicode_len();
    let mut j: usize = n;
    proof {
        assert(path@.take(n as int) =~= path@);
        assert(path@.subrange(n as int, n as int) =~= Seq::<char>::empty());
        assert(file_name(path@) =~= file_name(path@.take(n as int)) + path@.subrange(n as int, n as int));
    }
    while j > 0 && path.get_char(j - 1) != '/'
        invariant
            n == path@.len(),
            j <= n,
            file_name(path@) == file_name(path@.take(j as int)) + path@.subrange(j as int, n as int),
        decreases j,
    {
        proof {
            let t = path@.take(j as int);
            assert(t.drop_last() =~= path@.take(j - 1));
            assert(t.last() == path@[j - 1]);
            assert(path@.subrange(j - 1, n as int) =~= seq![path@[j - 1]] + path@.subrange(j as int, n as int));
            assert(file_name(path@.take(j - 1)).push(path@[j - 1]) + path@.subrange(j as int, n as int)
                =~= file_name(path@.take(j - 1)) + path@.subrange(j - 1, n as int));
        }
        j -= 1;
    }
    proof {
        if j == 0 {
            assert(path@.take(0) =~= Seq::<char>::empty());
        } else {
            assert(path@.take(j as int).last() == '/');
        }
        assert(file_name(path@) =~= path@.subrange(j as int, n as int));
    }
    path.substring_char(j, n)
}

} // verus!
