//! Tool-path resolution: an explicit resolver cache plus the path
//! construction and validation decisions.
//!
//! The resolver owns a small cache from tool name to resolved path,
//! populated lazily and never invalidated during a run.  Filesystem facts
//! (whether a candidate exists and is a regular file) are probed by the
//! embedding application and injected as plain booleans; the decisions on
//! them are verified here.

use vstd::prelude::*;
use crate::platform::Platform;
use crate::text::{
    chars_vec, ends_with_seq, ends_with_str, eq_str, extend_chars, extend_str, slice_chars,
    string_from_chars,
};

verus! {

/// Last position of `c` in `s`; `-1` when absent.
pub open spec fn rfind_char_spec(s: Seq<char>, c: char) -> int
    decreases s.len(),
{
    if s.len() == 0 {
        -1
    } else if s.last() == c {
        s.len() - 1
    } else {
        rfind_char_spec(s.drop_last(), c)
    }
}

proof fn lemma_rfind_char_spec_found(s: Seq<char>, c: char, i: int)
    requires
        0 <= i < s.len(),
        s[i] == c,
        forall|j: int| i < j < s.len() ==> s[j] != c,
    ensures
        rfind_char_spec(s, c) == i,
    decreases s.len(),
{
    if i < s.len() - 1 {
        let t = s.drop_last();
        assert(forall|j: int| 0 <= j < t.len() ==> t[j] == s[j]);
        lemma_rfind_char_spec_found(t, c, i);
    }
}

proof fn lemma_rfind_char_spec_absent(s: Seq<char>, c: char)
    requires
        forall|j: int| 0 <= j < s.len() ==> s[j] != c,
    ensures
        rfind_char_spec(s, c) == -1,
    decreases s.len(),
{
    if s.len() > 0 {
        let t = s.drop_last();
        assert(forall|j: int| 0 <= j < t.len() ==> t[j] == s[j]);
        lemma_rfind_char_spec_absent(t, c);
    }
}

fn rfind_char(s: &Vec<char>, c: char) -> (r: Option<usize>)
    ensures
        match r {
            Some(i) => i < s@.len() && s@[i as int] == c && (forall|j: int|
                i < j < s@.len() ==> s@[j] != c) && rfind_char_spec(s@, c) == i,
            None => rfind_char_spec(s@, c) == -1,
        },
{
    let mut i: usize = s.len();
    while i > 0
        invariant
            i <= s@.len(),
            forall|j: int| i <= j < s@.len() ==> s@[j] != c,
        decreases i,
    {
        i = i - 1;
        if s[i] == c {
            proof {
                lemma_rfind_char_spec_found(s@, c, i as int);
            }
            return Some(i);
        }
    }
    proof {
        lemma_rfind_char_spec_absent(s@, c);
    }
    None
}

/// The immediate parent directory of `path` ends in a `bin` component,
/// reading `sep` as the path separator.
pub open spec fn spec_parent_is_bin(path: Seq<char>, sep: char) -> bool {
    let e = rfind_char_spec(path, sep);
    if e < 0 {
        false
    } else {
        let parent = path.subrange(0, e);
        let e2 = rfind_char_spec(parent, sep);
        parent.subrange(e2 + 1, parent.len() as int) == "bin"@
    }
}

/// Validates a resolved tool path: the candidate must exist, be a regular
/// file, and sit immediately inside a `bin` directory.  `exists` and
/// `is_file` are the filesystem's answers about the candidate, probed by
/// the caller.
pub fn validate_tool_path(path: &str, exists: bool, is_file: bool, platform: Platform) -> (r: bool)
    ensures
        r == (exists && is_file && spec_parent_is_bin(path@, platform.spec_separator())),
{
    if !(exists && is_file) {
        return false;
    }
    let sep = platform.separator();
    let v = chars_vec(path);
    let e = match rfind_char(&v, sep) {
        Some(e) => e,
        None => {
            return false;
        },
    };
    let parent = slice_chars(&v, 0, e);
    let e2 = match rfind_char(&parent, sep) {
        Some(e2) => e2 + 1,
        None => 0,
    };
    let last = slice_chars(&parent, e2, parent.len());
    eq_str(&last, "bin")
}

/// The tool's file name on this platform: Windows appends `.exe` unless
/// the name already carries it.
pub open spec fn spec_tool_file_name(tool: Seq<char>, platform: Platform) -> Seq<char> {
    if platform is Windows {
        if ends_with_seq(tool, ".exe"@) {
            tool
        } else {
            tool + ".exe"@
        }
    } else {
        tool
    }
}

/// The development-time candidate: a `bin` directory next to the
/// application, holding the tool's platform file name.
pub open spec fn spec_dev_tool_path(base: Seq<char>, tool: Seq<char>, platform: Platform) -> Seq<
    char,
> {
    base + seq![platform.spec_separator()] + "bin"@ + seq![platform.spec_separator()]
        + spec_tool_file_name(tool, platform)
}

fn tool_file_name(tool: &str, platform: Platform) -> (r: Vec<char>)
    ensures
        r@ == spec_tool_file_name(tool@, platform),
{
    let v = chars_vec(tool);
    let windows = match platform {
        Platform::Windows => true,
        _ => false,
    };
    if windows && !ends_with_str(&v, ".exe") {
        let mut r = v;
        extend_str(&mut r, ".exe");
        r
    } else {
        v
    }
}

fn dev_tool_path(base: &str, tool: &str, platform: Platform) -> (r: Vec<char>)
    ensures
        r@ == spec_dev_tool_path(base@, tool@, platform),
{
    let sep = platform.separator();
    let mut r: Vec<char> = Vec::new();
    extend_str(&mut r, base);
    r.push(sep);
    extend_str(&mut r, "bin");
    r.push(sep);
    let name = tool_file_name(tool, platform);
    extend_chars(&mut r, &name);
    assert(r@ =~= spec_dev_tool_path(base@, tool@, platform));
    r
}

/// Whether the entries carry pairwise distinct tool names.
pub open spec fn distinct_keys(s: Seq<(String, String)>) -> bool {
    forall|i: int, j: int| 0 <= i < j < s.len() ==> (#[trigger] s[i]).0@ != (#[trigger] s[j]).0@
}

/// The mapping an entry list denotes.
pub open spec fn entries_map(s: Seq<(String, String)>) -> Map<Seq<char>, Seq<char>>
    decreases s.len(),
{
    if s.len() == 0 {
        Map::empty()
    } else {
        entries_map(s.drop_last()).insert(s.last().0@, s.last().1@)
    }
}

proof fn lemma_entries_map_found(s: Seq<(String, String)>, i: int)
    requires
        0 <= i < s.len(),
        forall|j: int| i < j < s.len() ==> (#[trigger] s[j]).0@ != s[i].0@,
    ensures
        entries_map(s).contains_key(s[i].0@),
        entries_map(s)[s[i].0@] == s[i].1@,
    decreases s.len(),
{
    if i < s.len() - 1 {
        let t = s.drop_last();
        assert(forall|j: int| 0 <= j < t.len() ==> t[j] == s[j]);
        lemma_entries_map_found(t, i);
    }
}

proof fn lemma_entries_map_absent(s: Seq<(String, String)>, k: Seq<char>)
    requires
        forall|j: int| 0 <= j < s.len() ==> (#[trigger] s[j]).0@ != k,
    ensures
        !entries_map(s).contains_key(k),
    decreases s.len(),
{
    if s.len() > 0 {
        let t = s.drop_last();
        assert(forall|j: int| 0 <= j < t.len() ==> t[j] == s[j]);
        lemma_entries_map_absent(t, k);
    }
}

/// The resolver's cache from tool name to resolved path: process-wide,
/// lazily populated, never invalidated during a run.
pub struct ToolPathCache {
    entries: Vec<(String, String)>,
}

impl ToolPathCache {
    /// The mapping the cache holds.
    pub closed spec fn view(&self) -> Map<Seq<char>, Seq<char>> {
        entries_map(self.entries@)
    }

    /// The cache never holds a tool name twice.
    pub closed spec fn wf(&self) -> bool {
        distinct_keys(self.entries@)
    }

    pub fn new() -> (c: Self)
        ensures
            c.wf(),
            c@ == Map::<Seq<char>, Seq<char>>::empty(),
    {
        ToolPathCache { entries: Vec::new() }
    }

    /// Looks a tool name up in the cache.
    pub fn lookup(&self, tool: &str) -> (r: Option<String>)
        requires
            self.wf(),
        ensures
            match r {
                Some(p) => self@.contains_key(tool@) && p@ == self@[tool@],
                None => !self@.contains_key(tool@),
            },
    {
        let t = chars_vec(tool);
        let mut i: usize = 0;
        while i < self.entries.len()
            invariant
                self.wf(),
                i <= self.entries@.len(),
                t@ == tool@,
                forall|j: int| 0 <= j < i ==> (#[trigger] self.entries@[j]).0@ != tool@,
            decreases self.entries@.len() - i,
        {
            let tv = chars_vec(self.entries[i].0.as_str());
            if eq_str(&t, self.entries[i].0.as_str()) {
                proof {
                    assert forall|j: int| i < j < self.entries@.len() implies (#[trigger] self
                        .entries@[j]).0@ != self.entries@[i as int].0@ by {
                        assert((self.entries@[i as int]).0@ != (self.entries@[j]).0@);
                    }
                    lemma_entries_map_found(self.entries@, i as int);
                }
                return Some(self.entries[i].1.clone());
            }
            i = i + 1;
        }
        proof {
            lemma_entries_map_absent(self.entries@, tool@);
        }
        None
    }

    /// Records a resolution.  A tool already cached keeps its old entry:
    /// the cache is written once per tool and never invalidated.
    pub fn insert_new(&mut self, tool: &str, path: &str)
        requires
            old(self).wf(),
            !old(self)@.contains_key(tool@),
        ensures
            final(self).wf(),
            final(self)@ == old(self)@.insert(tool@, path@),
    {
        proof {
            if exists|j: int| 0 <= j < self.entries@.len() && (#[trigger] self.entries@[j]).0@
                == tool@ {
                let j = choose|j: int|
                    0 <= j < self.entries@.len() && (#[trigger] self.entries@[j]).0@ == tool@;
                assert forall|k: int| j < k < self.entries@.len() implies (#[trigger] self
                    .entries@[k]).0@ != self.entries@[j].0@ by {}
                lemma_entries_map_found(self.entries@, j);
            }
        }
        self.entries.push((String::from_str(tool), String::from_str(path)));
        proof {
            assert(self.entries@.drop_last() =~= old(self).entries@);
            assert(self.entries@.last().0@ == tool@);
            assert forall|i: int, j: int|
                0 <= i < j < self.entries@.len() implies (#[trigger] self.entries@[i]).0@ != (
            #[trigger] self.entries@[j]).0@ by {
                if j < self.entries@.len() - 1 {
                    assert(self.entries@[i] == old(self).entries@[i]);
                    assert(self.entries@[j] == old(self).entries@[j]);
                } else {
                    assert(self.entries@[i] == old(self).entries@[i]);
                    if self.entries@[i].0@ == tool@ {
                        lemma_entries_map_found(old(self).entries@, i);
                    }
                }
            }
        }
    }
}

/// Resolves the development-time path of a tool, through the cache: a hit
/// is returned as cached, a miss constructs the sibling-`bin` candidate,
/// caches it and returns it.  The candidate is returned whether or not it
/// passes validation; callers check existence before use.
pub fn get_tool_path_internal(
    cache: &mut ToolPathCache,
    dev_base: &str,
    tool_name: &str,
    platform: Platform,
) -> (r: String)
    requires
        old(cache).wf(),
    ensures
        final(cache).wf(),
        old(cache)@.contains_key(tool_name@) ==> r@ == old(cache)@[tool_name@] && final(cache)@
            == old(cache)@,
        !old(cache)@.contains_key(tool_name@) ==> r@ == spec_dev_tool_path(
            dev_base@,
            tool_name@,
            platform,
        ) && final(cache)@ == old(cache)@.insert(tool_name@, r@),
{
    match cache.lookup(tool_name) {
        Some(p) => p,
        None => {
            let path = dev_tool_path(dev_base, tool_name, platform);
            let s = string_from_chars(&path);
            cache.insert_new(tool_name, s.as_str());
            s
        },
    }
}

/// Resolves a tool path, preferring a validated candidate from the
/// packaged resource directory and falling back to the development-time
/// location.  `resource` carries the packaged candidate together with the
/// filesystem's answers about it, when the runtime offered one.
pub fn resolve_tool_path(
    cache: &mut ToolPathCache,
    resource: Option<(&str, bool, bool)>,
    dev_base: &str,
    tool_name: &str,
    platform: Platform,
) -> (r: String)
    requires
        old(cache).wf(),
    ensures
        final(cache).wf(),
        ({
            let valid = match resource {
                Some((p, ex, f)) => ex && f && spec_parent_is_bin(p@, platform.spec_separator()),
                None => false,
            };
            if valid {
                r@ == (match resource {
                    Some((p, ex, f)) => p@,
                    None => Seq::empty(),
                }) && final(cache)@ == old(cache)@
            } else if old(cache)@.contains_key(tool_name@) {
                r@ == old(cache)@[tool_name@] && final(cache)@ == old(cache)@
            } else {
                r@ == spec_dev_tool_path(dev_base@, tool_name@, platform) && final(cache)@ == old(
                    cache,
                )@.insert(tool_name@, r@)
            }
        }),
{
    match resource {
        Some((p, ex, f)) => {
            if validate_tool_path(p, ex, f, platform) {
                return String::from_str(p);
            }
        },
        None => {},
    }
    get_tool_path_internal(cache, dev_base, tool_name, platform)
}

/// The program the transcode invocation runs: the resolved path when it
/// exists, else the bare tool name, deferring to the operating system's
/// executable search path.
pub fn merge_tool_program(resolved: &str, exists: bool) -> (r: String)
    ensures
        exists ==> r@ == resolved@,
        !exists ==> r@ == "ffmpeg"@,
{
    if exists {
        String::from_str(resolved)
    } else {
        String::from_str("ffmpeg")
    }
}

/// The error reported when a required tool cannot be found on disk.
pub fn tool_missing_error(path: &str) -> (r: String)
    ensures
        r@ == "工具不存在: "@ + path@,
{
    let mut m: Vec<char> = Vec::new();
    extend_str(&mut m, "工具不存在: ");
    extend_str(&mut m, path);
    string_from_chars(&m)
}

/// Whether a tool counts as available: it resolves locally, or the
/// operating system's executable search found it.  `os_lookup` is the
/// outcome of that search (`None`: the search itself could not run, with
/// `detail` the reported reason).
pub fn check_tool_available(local_exists: bool, os_lookup: Option<bool>, detail: &str) -> (r:
    Result<bool, String>)
    ensures
        local_exists ==> r == Result::<bool, String>::Ok(true),
        !local_exists ==> match (r, os_lookup) {
            (Ok(b), Some(f)) => b == f,
            (Err(m), None) => m@ == "检查工具失败: "@ + detail@,
            _ => false,
        },
{
    if local_exists {
        Ok(true)
    } else {
        match os_lookup {
            Some(found) => Ok(found),
            None => {
                let mut m: Vec<char> = Vec::new();
                extend_str(&mut m, "检查工具失败: ");
                extend_str(&mut m, detail);
                Err(string_from_chars(&m))
            },
        }
    }
}

} // verus!
