//! Where the plugin keeps its files, and where OpenDeck keeps its profiles.
//! Paths are Unix paths held as strings.
use vstd::prelude::*;

verus! {

/// `base` joined with `name` as `Path::join` does on Unix: an absolute `name`
/// replaces `base`; otherwise a `/` separates them unless `base` is empty or
/// already ends with one.
pub open spec fn spec_join(base: Seq<char>, name: Seq<char>) -> Seq<char> {
    if name.len() > 0 && name[0] == '/' {
        name
    } else if base.len() == 0 || base.last() == '/' {
        base + name
    } else {
        base + seq!['/'] + name
    }
}

/// Joins a path and a file or directory name.
pub fn join_path(base: &str, name: &str) -> (r: String)
    ensures
        r@ == spec_join(base@, name@),
{
    if !name.is_empty() && name.get_char(0) == '/' {
        return String::from_str(name);
    }
    let n = base.unicode_len();
    if n == 0 || base.get_char(n - 1) == '/' {
        String::from_str(base).concat(name)
    } else {
        let r = String::from_str(base).concat("/").concat(name);
        proof {
            reveal_strlit("/");
            assert(r@ =~= base@ + seq!['/'] + name@);
        }
        r
    }
}

/// OpenDeck's configuration directory, inside the user's configuration directory.
pub fn opendeck_config_dir(user_config_dir: &str) -> (r: String)
    ensures
        r@ == spec_join(user_config_dir@, "opendeck"@),
{
    join_path(user_config_dir, "opendeck")
}

/// The plugin's settings file, in the plugin directory.
pub fn config_path(plugin_dir: &str) -> (r: String)
    ensures
        r@ == spec_join(plugin_dir@, "settings.json"@),
{
    join_path(plugin_dir, "settings.json")
}

/// The file that remembers the active profile, in the plugin directory.
pub fn profile_path(plugin_dir: &str) -> (r: String)
    ensures
        r@ == spec_join(plugin_dir@, "active_profile"@),
{
    join_path(plugin_dir, "active_profile")
}

/// The directory that holds a device's profiles, in OpenDeck's configuration directory.
pub fn profile_store_dir(opendeck_dir: &str, device_id: &str) -> (r: String)
    ensures
        r@ == spec_join(spec_join(opendeck_dir@, "profiles"@), device_id@),
{
    let profiles = join_path(opendeck_dir, "profiles");
    join_path(profiles.as_str(), device_id)
}

/// The file in which OpenDeck records a device's selected profile.
pub fn selected_profile_path(opendeck_dir: &str, device_id: &str) -> (r: String)
    ensures
        r@ == spec_join(spec_join(opendeck_dir@, "profiles"@), device_id@ + ".json"@),
{
    let profiles = join_path(opendeck_dir, "profiles");
    let name = String::from_str(device_id).concat(".json");
    join_path(profiles.as_str(), name.as_str())
}

/// The plugin directory: the working directory if it is one, else the executable's
/// directory if that is one, else `fallback`. The first two are given only when they
/// are plugin directories.
pub fn plugin_dir(cwd_with_manifest: Option<String>, exe_dir_with_manifest: Option<String>, fallback: String) -> (r: String)
    ensures
        r == (match cwd_with_manifest {
            Some(c) => c,
            None => match exe_dir_with_manifest {
                Some(e) => e,
                None => fallback,
            },
        }),
{
    match cwd_with_manifest {
        Some(c) => c,
        None => match exe_dir_with_manifest {
            Some(e) => e,
            None => fallback,
        },
    }
}

/// The given path, as a list of at most one candidate.
pub open spec fn given_candidate(env_path: Option<String>) -> Seq<Seq<char>> {
    match env_path {
        Some(p) => seq![p@],
        None => Seq::empty(),
    }
}

/// The library file in the given directory, as a list of at most one candidate.
pub open spec fn dir_candidate(dir: Option<String>) -> Seq<Seq<char>> {
    match dir {
        Some(d) => seq![spec_join(d@, "libtransport.so"@)],
        None => Seq::empty(),
    }
}

/// Where the vendor transport library is looked for, in order: the path given in the
/// environment, next to the executable, in the build directory, in the plugin directory.
pub fn libtransport_candidates(env_path: Option<String>, exe_dir: Option<String>, manifest_dir: &str, plugin_dir: &str) -> (r: Vec<String>)
    ensures
        r@.map_values(|s: String| s@) == given_candidate(env_path) + dir_candidate(exe_dir) + seq![
            spec_join(manifest_dir@, "libtransport.so"@),
            spec_join(plugin_dir@, "libtransport.so"@),
        ],
{
    let ghost a = given_candidate(env_path);
    let ghost b = dir_candidate(exe_dir);
    let mut r: Vec<String> = Vec::new();
    match env_path {
        Some(p) => r.push(p),
        None => {},
    }
    assert(r@.map_values(|s: String| s@) =~= a);
    match exe_dir {
        Some(d) => r.push(join_path(d.as_str(), "libtransport.so")),
        None => {},
    }
    assert(r@.map_values(|s: String| s@) =~= a + b);
    r.push(join_path(manifest_dir, "libtransport.so"));
    r.push(join_path(plugin_dir, "libtransport.so"));
    assert(r@.map_values(|s: String| s@) =~= a + b + seq![
        spec_join(manifest_dir@, "libtransport.so"@),
        spec_join(plugin_dir@, "libtransport.so"@),
    ]);
    r
}

/// Picks the library to load: the first candidate that exists, where `exists[i]` says
/// whether candidate `i` exists; `None` when none of them does.
pub fn select_libtransport(candidates: &Vec<String>, exists: &Vec<bool>) -> (r: Option<usize>)
    ensures
        match r {
            Some(i) => i < candidates.len() && i < exists.len() && exists[i as int]
                && forall|j: int| 0 <= j < i ==> !exists[j],
            None => forall|j: int| 0 <= j < candidates.len() && j < exists.len() ==> !exists[j],
        },
{
    let n = if candidates.len() < exists.len() { candidates.len() } else { exists.len() };
    let mut i: usize = 0;
    while i < n
        invariant
            i <= n,
            n <= candidates.len(),
            n <= exists.len(),
            n == candidates.len() || n == exists.len(),
            forall|j: int| 0 <= j < i ==> !exists[j],
        decreases n - i,
    {
        if exists[i] {
            return Some(i);
        }
        i = i + 1;
    }
    None
}

/// Index of the first `\n` at or after `start`, or the length of `s`.
pub open spec fn next_newline(s: Seq<char>, start: int) -> int
    decreases s.len() - start,
{
    if start >= s.len() {
        s.len() as int
    } else if s[start] == '\n' {
        start
    } else {
        next_newline(s, start + 1)
    }
}

/// The line that starts at `start` and ends at `end`: a `\r` before the `\n` that ends
/// it is not part of it.
pub open spec fn line_text(s: Seq<char>, start: int, end: int) -> Seq<char> {
    let l = s.subrange(start, end);
    if end < s.len() && l.len() > 0 && l.last() == '\r' {
        l.drop_last()
    } else {
        l
    }
}

/// The lines of `s` from `start` on, as `str::lines` splits them.
pub open spec fn lines_from(s: Seq<char>, start: int) -> Seq<Seq<char>>
    decreases s.len() - start,
{
    if start < 0 || start >= s.len() {
        Seq::empty()
    } else {
        let e = next_newline(s, start);
        if e < start || e >= s.len() {
            seq![line_text(s, start, e)]
        } else {
            seq![line_text(s, start, e)] + lines_from(s, e + 1)
        }
    }
}

/// The device node named by the first `DEVNAME=` line (with a non-empty name) of a
/// sysfs `uevent` file, under `/dev/`.
pub open spec fn devname_node(lines: Seq<Seq<char>>) -> Option<Seq<char>>
    decreases lines.len(),
{
    if lines.len() == 0 {
        None
    } else {
        let l = lines[0];
        if l.len() > 8 && l.subrange(0, 8) == "DEVNAME="@ {
            Some("/dev/"@ + l.skip(8))
        } else {
            devname_node(lines.drop_first())
        }
    }
}

proof fn lemma_next_newline_bounds(s: Seq<char>, start: int)
    requires
        0 <= start <= s.len(),
    ensures
        start <= next_newline(s, start) <= s.len(),
        forall|i: int| start <= i < next_newline(s, start) ==> s[i] != '\n',
        next_newline(s, start) < s.len() ==> s[next_newline(s, start)] == '\n',
    decreases s.len() - start,
{
    if start < s.len() && s[start] != '\n' {
        lemma_next_newline_bounds(s, start + 1);
    }
}

/// The hidraw device node of a HID device, read from its sysfs `uevent` text: the
/// first line `DEVNAME=NAME` with a non-empty name gives `/dev/NAME`.
pub fn hidraw_path_from_uevent(uevent: &str) -> (r: Option<String>)
    ensures
        match r {
            Some(p) => devname_node(lines_from(uevent@, 0)) == Some(p@),
            None => devname_node(lines_from(uevent@, 0)) is None,
        },
{
    let n = uevent.unicode_len();
    let ghost s = uevent@;
    let mut start: usize = 0;
    proof {
        reveal_strlit("DEVNAME=");
        reveal_strlit("/dev/");
    }
    while start < n
        invariant
            n == s.len(),
            start <= n,
            s == uevent@,
            devname_node(lines_from(s, 0)) == devname_node(lines_from(s, start as int)),
        decreases n - start,
    {
        let mut end: usize = start;
        while end < n && uevent.get_char(end) != '\n'
            invariant
                start <= end <= n,
                n == s.len(),
                s == uevent@,
                forall|i: int| start <= i < end ==> s[i] != '\n',
            decreases n - end,
        {
            end = end + 1;
        }
        proof {
            lemma_next_newline_bounds(s, start as int);
            if next_newline(s, start as int) < end {
                assert(s[next_newline(s, start as int)] == '\n');
            }
            if end < next_newline(s, start as int) {
                assert(s[end as int] != '\n');
            }
            assert(next_newline(s, start as int) == end);
        }
        let mut line_end = end;
        if end < n && end > start && uevent.get_char(end - 1) == '\r' {
            line_end = end - 1;
        }
        let line = uevent.substring_char(start, line_end);
        proof {
            assert(line@ =~= line_text(s, start as int, end as int));
            if end < n {
                assert(lines_from(s, start as int) =~= seq![line@] + lines_from(s, end + 1));
            } else {
                assert(lines_from(s, start as int) =~= seq![line@]);
            }
        }
        let len = line.unicode_len();
        if len > 8 {
            let head = line.substring_char(0, 8);
            if crate::text::str_eq(head, "DEVNAME=") {
                let dev = line.substring_char(8, len);
                let r = String::from_str("/dev/").concat(dev);
                proof {
                    assert(line@.skip(8) =~= dev@);
                }
                return Some(r);
            }
        }
        if end >= n {
            proof {
                assert(seq![line@].drop_first() =~= Seq::<Seq<char>>::empty());
                assert(devname_node(seq![line@]) == devname_node(seq![line@].drop_first()));
                assert(devname_node(Seq::<Seq<char>>::empty()) is None);
            }
            return None;
        }
        proof {
            assert((seq![line@] + lines_from(s, end + 1)).drop_first() =~= lines_from(s, end + 1));
        }
        start = end + 1;
    }
    None
}

} // verus!
