use vstd::prelude::*;
use vstd::string::*;

verus! {

/// Where maps are pinned when no other place is named.
pub const DEFAULT_PIN_PATH: &'static str = "/sys/fs/bpf";

/// The kernel's number for the map kind that redirects to network devices.
pub const BPF_MAP_TYPE_DEVMAP: u32 = 14;

/// The flag that the kernel sets by itself on every map of that kind.
pub const DEVMAP_FLAGS: u32 = 0x80;

/// `s` without the slashes at its end.
pub open spec fn without_trailing_slashes(s: Seq<char>) -> Seq<char>
    decreases s.len(),
{
    if s.len() > 0 && s.last() == '/' {
        without_trailing_slashes(s.drop_last())
    } else {
        s
    }
}

/// The path under which the map `map_name` is pinned below `path`: `path`
/// without the slashes at its end, or the default place where none is named,
/// then one slash and the name.
pub open spec fn spec_pin_path(path: Option<Seq<char>>, map_name: Seq<char>) -> Seq<char> {
    without_trailing_slashes(
        match path {
            Some(p) => p,
            None => DEFAULT_PIN_PATH@,
        },
    ) + seq!['/'] + map_name
}

/// The path under which the map `map_name` is pinned below `path`, or below
/// `/sys/fs/bpf` where no path is given.
pub fn pin_path(path: Option<&str>, map_name: &str) -> (r: String)
    ensures
        r@ == spec_pin_path(
            match path {
                Some(p) => Some(p@),
                None => None,
            },
            map_name@,
        ),
{
    let base: &str = match path {
        Some(p) => p,
        None => DEFAULT_PIN_PATH,
    };
    let mut n: usize = base.unicode_len();
    assert(base@.take(n as int) =~= base@);
    while n > 0 && base.get_char(n - 1) == '/'
        invariant
            n <= base@.len(),
            without_trailing_slashes(base@) == without_trailing_slashes(base@.take(n as int)),
        decreases n,
    {
        assert(base@.take(n as int).drop_last() =~= base@.take(n - 1));
        n -= 1;
    }
    let mut r = String::from_str(base.substring_char(0, n));
    r.append("/");
    proof {
        reveal_strlit("/");
        assert("/"@ =~= seq!['/']);
    }
    r.append(map_name);
    r
}

/// The flags to give a map before it is taken from its pin path, if they
/// have to change: a device map that is pinned already was made with the
/// kernel's own flag on it, and is only taken over with that flag.
pub fn pinned_map_flags(map_type: u32, pinned: bool, map_flags: u32) -> (r: Option<u32>)
    ensures
        r == if map_type == BPF_MAP_TYPE_DEVMAP && pinned {
            Some(map_flags | DEVMAP_FLAGS)
        } else {
            None
        },
{
    if map_type == BPF_MAP_TYPE_DEVMAP && pinned {
        Some(map_flags | DEVMAP_FLAGS)
    } else {
        None
    }
}

} // verus!
