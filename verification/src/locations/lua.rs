use vstd::prelude::*;

use crate::locations::{join, join_path, lua_path};

verus! {

/// `.aud/lua/examples` under the home directory, as a path.
pub open spec fn examples_path(home: Seq<char>) -> Seq<char> {
    join_path(lua_path(home), seq!['e', 'x', 'a', 'm', 'p', 'l', 'e', 's'])
}

/// `.aud/lua/<name>` under the home directory, as a path.
pub open spec fn lua_dir_path(home: Seq<char>, name: Seq<char>) -> Seq<char> {
    join_path(lua_path(home), name)
}

/// The scripts' library directory: `.aud/lua/aud` under the home directory.
pub fn lib(home: &Option<String>) -> (r: Option<String>)
    ensures
        r matches Some(p) ==> home matches Some(h) && p@ == lua_dir_path(h@, seq!['a', 'u', 'd']),
        r is None <==> home is None,
{
    let dir = crate::locations::lua(home)?;
    proof {
        reveal_strlit("aud");
    }
    Some(join(dir.as_str(), "aud"))
}

/// The scripts' API directory: `.aud/lua/api` under the home directory.
pub fn api(home: &Option<String>) -> (r: Option<String>)
    ensures
        r matches Some(p) ==> home matches Some(h) && p@ == lua_dir_path(h@, seq!['a', 'p', 'i']),
        r is None <==> home is None,
{
    let dir = crate::locations::lua(home)?;
    proof {
        reveal_strlit("api");
    }
    Some(join(dir.as_str(), "api"))
}

/// The example scripts: `.aud/lua/examples` under the home directory.
pub fn examples(home: &Option<String>) -> (r: Option<String>)
    ensures
        r matches Some(p) ==> home matches Some(h) && p@ == examples_path(h@),
        r is None <==> home is None,
{
    let dir = crate::locations::lua(home)?;
    proof {
        reveal_strlit("examples");
    }
    Some(join(dir.as_str(), "examples"))
}

/// The example scripts of command `cmd`: `.aud/lua/examples/<cmd>` under the
/// home directory.
pub fn examples_for(home: &Option<String>, cmd: &str) -> (r: Option<String>)
    ensures
        r matches Some(p) ==> home matches Some(h) && p@ == join_path(examples_path(h@), cmd@),
        r is None <==> home is None,
{
    let dir = examples(home)?;
    Some(join(dir.as_str(), cmd))
}

} // verus!
