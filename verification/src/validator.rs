//! Argument validation for the downloader invocation.
//!
//! A caller-supplied argument list is checked, before any process is
//! spawned, against a fixed allow-list of flags; filesystem destinations
//! must be free of parent-directory references (and of foreign separators
//! on Windows), and decryption keys must have one of two accepted shapes.

use vstd::prelude::*;
use crate::platform::Platform;
use crate::text::{
    chars_vec, contains_seq, contains_str, eq_str, find_char_from, slice_chars, starts_with_seq,
    starts_with_str, string_from_chars, extend_chars, extend_str,
};
use crate::parser::{find_char_spec, lemma_find_char_spec_absent, lemma_find_char_spec_found};

verus! {

/// The fixed allow-list of downloader flags.
pub open spec fn is_allowed_arg(name: Seq<char>) -> bool {
    ||| name == "--save-dir"@
    ||| name == "--save-name"@
    ||| name == "--thread-count"@
    ||| name == "--auto-select"@
    ||| name == "--no-log"@
    ||| name == "--max-speed"@
    ||| name == "--live-record-limit"@
    ||| name == "--select-video"@
    ||| name == "--select-audio"@
    ||| name == "--select-subtitle"@
    ||| name == "--drop-video"@
    ||| name == "--drop-audio"@
    ||| name == "--drop-subtitle"@
    ||| name == "--key"@
    ||| name == "--custom-hls-method"@
    ||| name == "--decryption-key"@
    ||| name == "--decryption-engine"@
    ||| name == "--decryption-binary-path"@
    ||| name == "--mp4-real-time-decryption"@
    ||| name == "--mux-after-done"@
    ||| name == "--binary-merge"@
    ||| name == "-H"@
    ||| name == "--http-header"@
    ||| name == "--user-agent"@
    ||| name == "--referer"@
    ||| name == "--custom-range"@
    ||| name == "--date-range"@
    ||| name == "--append-user-agent"@
    ||| name == "--log-level"@
    ||| name == "--tmp-dir"@
    ||| name == "--del-after-done"@
    ||| name == "--retry-count"@
    ||| name == "--download-retry-delay"@
    ||| name == "--auto-subtitle-fix"@
    ||| name == "--no-ansi-color"@
    ||| name == "--no-date-info"@
    ||| name == "--no-log-color"@
    ||| name == "--use-shaka-packager"@
    ||| name == "--check-segments-count"@
}

/// Membership in the allow-list.
pub fn allowed_arg(name: &Vec<char>) -> (r: bool)
    ensures
        r == is_allowed_arg(name@),
{
    ||| eq_str(name, "--save-dir")
    ||| eq_str(name, "--save-name")
    ||| eq_str(name, "--thread-count")
    ||| eq_str(name, "--auto-select")
    ||| eq_str(name, "--no-log")
    ||| eq_str(name, "--max-speed")
    ||| eq_str(name, "--live-record-limit")
    ||| eq_str(name, "--select-video")
    ||| eq_str(name, "--select-audio")
    ||| eq_str(name, "--select-subtitle")
    ||| eq_str(name, "--drop-video")
    ||| eq_str(name, "--drop-audio")
    ||| eq_str(name, "--drop-subtitle")
    ||| eq_str(name, "--key")
    ||| eq_str(name, "--custom-hls-method")
    ||| eq_str(name, "--decryption-key")
    ||| eq_str(name, "--decryption-engine")
    ||| eq_str(name, "--decryption-binary-path")
    ||| eq_str(name, "--mp4-real-time-decryption")
    ||| eq_str(name, "--mux-after-done")
    ||| eq_str(name, "--binary-merge")
    ||| eq_str(name, "-H")
    ||| eq_str(name, "--http-header")
    ||| eq_str(name, "--user-agent")
    ||| eq_str(name, "--referer")
    ||| eq_str(name, "--custom-range")
    ||| eq_str(name, "--date-range")
    ||| eq_str(name, "--append-user-agent")
    ||| eq_str(name, "--log-level")
    ||| eq_str(name, "--tmp-dir")
    ||| eq_str(name, "--del-after-done")
    ||| eq_str(name, "--retry-count")
    ||| eq_str(name, "--download-retry-delay")
    ||| eq_str(name, "--auto-subtitle-fix")
    ||| eq_str(name, "--no-ansi-color")
    ||| eq_str(name, "--no-date-info")
    ||| eq_str(name, "--no-log-color")
    ||| eq_str(name, "--use-shaka-packager")
    ||| eq_str(name, "--check-segments-count")
}

/// A leading argument that is a literal URL, exempt from flag checks.
pub open spec fn is_url_arg(s: Seq<char>) -> bool {
    starts_with_seq(s, "http://"@) || starts_with_seq(s, "https://"@)
}

/// The flag name of a token: for `--`-prefixed tokens, the text before the
/// first `=`; otherwise the token itself.
pub open spec fn flag_name(s: Seq<char>) -> Seq<char> {
    if starts_with_seq(s, "--"@) {
        let e = find_char_spec(s, '=', 0);
        if e >= 0 {
            s.subrange(0, e)
        } else {
            s
        }
    } else {
        s
    }
}

/// A flag that names a filesystem destination, whose following value must
/// be a safe path.
pub open spec fn is_path_flag(name: Seq<char>) -> bool {
    name == "--save-dir"@ || name == "--save-name"@ || name == "--tmp-dir"@
}

/// Path safety: no parent-directory reference, and on Windows no foreign
/// separator in a non-URL value.
pub open spec fn spec_validate_path(s: Seq<char>, platform: Platform) -> Result<(), Seq<char>> {
    if contains_seq(s, ".."@) {
        Err("路径包含不安全的父目录引用"@)
    } else if platform is Windows && contains_seq(s, "/"@) && !starts_with_seq(s, "http"@) {
        Err("路径包含不安全的分隔符"@)
    } else {
        Ok(())
    }
}

pub open spec fn key_format_ok(v: Seq<char>) -> bool {
    contains_seq(v, ":"@) || starts_with_seq(v, "0x"@)
}

/// The outcome of checking the tokens of `args` from position `i` on:
/// the first failure wins.
pub open spec fn spec_validate_from(args: Seq<Seq<char>>, i: int, platform: Platform) -> Result<
    (),
    Seq<char>,
>
    decreases args.len() - i,
{
    if i < 0 || i >= args.len() {
        Ok(())
    } else if i == 0 && is_url_arg(args[0]) {
        spec_validate_from(args, i + 1, platform)
    } else if starts_with_seq(args[i], "--"@) || starts_with_seq(args[i], "-"@) {
        let name = flag_name(args[i]);
        if !is_allowed_arg(name) {
            Err("不允许的参数: "@ + name)
        } else {
            let path_check: Result<(), Seq<char>> = if is_path_flag(name) && i + 1 < args.len() {
                spec_validate_path(args[i + 1], platform)
            } else {
                Ok(())
            };
            match path_check {
                Err(m) => Err(m),
                Ok(()) => {
                    if name == "--key"@ && i + 1 < args.len() && !key_format_ok(args[i + 1]) {
                        Err("密钥格式不正确，应为 KID:KEY 或 0x 开头的十六进制"@)
                    } else {
                        spec_validate_from(args, i + 1, platform)
                    }
                },
            }
        }
    } else {
        spec_validate_from(args, i + 1, platform)
    }
}

/// The outcome of validating a whole argument list.
pub open spec fn spec_validate_args(args: Seq<Seq<char>>, platform: Platform) -> Result<
    (),
    Seq<char>,
> {
    spec_validate_from(args, 0, platform)
}

/// An invocation must carry at least one argument; an empty list is
/// rejected before anything else runs.
pub fn ensure_args_present(args: &Vec<String>) -> (r: Result<(), String>)
    ensures
        match r {
            Ok(()) => args@.len() > 0,
            Err(m) => args@.len() == 0 && m@ == "参数不能为空"@,
        },
{
    if args.len() == 0 {
        Err(String::from_str("参数不能为空"))
    } else {
        Ok(())
    }
}

/// Checks one path value for traversal safety.
pub fn validate_path_safety(path: &str, platform: Platform) -> (r: Result<(), String>)
    ensures
        match (r, spec_validate_path(path@, platform)) {
            (Ok(()), Ok(())) => true,
            (Err(m), Err(sm)) => m@ == sm,
            _ => false,
        },
{
    let v = chars_vec(path);
    validate_path_chars(&v, platform)
}

fn validate_path_chars(v: &Vec<char>, platform: Platform) -> (r: Result<(), String>)
    ensures
        match (r, spec_validate_path(v@, platform)) {
            (Ok(()), Ok(())) => true,
            (Err(m), Err(sm)) => m@ == sm,
            _ => false,
        },
{
    if contains_str(v, "..") {
        return Err(String::from_str("路径包含不安全的父目录引用"));
    }
    let windows = match platform {
        Platform::Windows => true,
        _ => false,
    };
    if windows && contains_str(v, "/") && !starts_with_str(v, "http") {
        return Err(String::from_str("路径包含不安全的分隔符"));
    }
    Ok(())
}

/// Extracts the flag name of a token.
fn flag_name_exec(a: &Vec<char>) -> (r: Vec<char>)
    ensures
        r@ == flag_name(a@),
{
    if starts_with_str(a, "--") {
        match find_char_from(a, '=', 0) {
            Some(e) => {
                proof {
                    lemma_find_char_spec_found(a@, '=', 0, e as int);
                }
                slice_chars(a, 0, e)
            },
            None => {
                proof {
                    lemma_find_char_spec_absent(a@, '=', 0);
                }
                slice_chars(a, 0, a.len())
            },
        }
    } else {
        slice_chars(a, 0, a.len())
    }
}

/// Validates a downloader argument list against the allow-list and the
/// path and key value rules.  Pure: the list is only inspected, and the
/// first offending token decides the error.
pub fn validate_n_m3u8dl_args(args: &Vec<String>, platform: Platform) -> (r: Result<(), String>)
    ensures
        match (r, spec_validate_args(args.deep_view(), platform)) {
            (Ok(()), Ok(())) => true,
            (Err(m), Err(sm)) => m@ == sm,
            _ => false,
        },
{
    let ghost av = args.deep_view();
    let n = args.len();
    let mut i: usize = 0;
    while i < n
        invariant
            i <= n,
            n == args@.len(),
            av == args.deep_view(),
            av.len() == n,
            spec_validate_from(av, 0, platform) == spec_validate_from(av, i as int, platform),
        decreases n - i,
    {
        proof {
            assert(av[i as int] == args@[i as int]@);
        }
        let a = chars_vec(args[i].as_str());
        let skip_url = i == 0 && (starts_with_str(&a, "http://") || starts_with_str(
            &a,
            "https://",
        ));
        if !skip_url {
            if starts_with_str(&a, "--") || starts_with_str(&a, "-") {
                let name = flag_name_exec(&a);
                if !allowed_arg(&name) {
                    let mut m: Vec<char> = Vec::new();
                    extend_str(&mut m, "不允许的参数: ");
                    extend_chars(&mut m, &name);
                    assert(m@ =~= "不允许的参数: "@ + flag_name(av[i as int]));
                    return Err(string_from_chars(&m));
                }
                let path_flag = eq_str(&name, "--save-dir") || eq_str(&name, "--save-name")
                    || eq_str(&name, "--tmp-dir");
                if path_flag && i + 1 < n {
                    proof {
                        assert(av[i as int + 1] == args@[i as int + 1]@);
                    }
                    let value = chars_vec(args[i + 1].as_str());
                    match validate_path_chars(&value, platform) {
                        Err(m) => {
                            return Err(m);
                        },
                        Ok(()) => {},
                    }
                }
                if eq_str(&name, "--key") && i + 1 < n {
                    proof {
                        assert(av[i as int + 1] == args@[i as int + 1]@);
                    }
                    let value = chars_vec(args[i + 1].as_str());
                    if !(contains_str(&value, ":") || starts_with_str(&value, "0x")) {
                        return Err(
                            String::from_str("密钥格式不正确，应为 KID:KEY 或 0x 开头的十六进制"),
                        );
                    }
                }
            }
        }
        i = i + 1;
    }
    Ok(())
}

proof fn lemma_validate_err_propagates(args: Seq<Seq<char>>, platform: Platform, j: int, i: int)
    requires
        0 <= j <= i,
        spec_validate_from(args, i, platform) is Err,
    ensures
        spec_validate_from(args, j, platform) is Err,
    decreases i - j,
{
    if j < i {
        lemma_validate_err_propagates(args, platform, j + 1, i);
    }
}

/// A token that reaches the flag check begins with a dash prefix; a
/// leading URL does not.
proof fn lemma_dash_token_not_url(s: Seq<char>)
    requires
        starts_with_seq(s, "--"@) || starts_with_seq(s, "-"@),
    ensures
        !is_url_arg(s),
{
    reveal_strlit("-");
    reveal_strlit("--");
    reveal_strlit("http://");
    reveal_strlit("https://");
    if starts_with_seq(s, "--"@) {
        lemma_starts_with_first(s, "--"@);
    } else {
        lemma_starts_with_first(s, "-"@);
    }
    assert(s[0] == '-');
    if is_url_arg(s) {
        if starts_with_seq(s, "http://"@) {
            lemma_starts_with_first(s, "http://"@);
        } else {
            lemma_starts_with_first(s, "https://"@);
        }
        assert(s[0] == 'h');
    }
}

proof fn lemma_starts_with_first(s: Seq<char>, p: Seq<char>)
    requires
        starts_with_seq(s, p),
        p.len() > 0,
    ensures
        s[0] == p[0],
{
    assert(s[0int + 0int] == p[0int]);
}

/// A token whose flag name is one of the `--`-prefixed names itself
/// begins with `--`.
proof fn lemma_named_flag_has_dashes(s: Seq<char>, name: Seq<char>)
    requires
        flag_name(s) == name,
        starts_with_seq(name, "--"@),
    ensures
        starts_with_seq(s, "--"@),
{
    if !starts_with_seq(s, "--"@) {
        assert(s == name);
    }
}

/// Any argument list holding a flag token outside the allow-list is
/// rejected (the leading-URL exemption aside), before any process can be
/// spawned.
pub proof fn lemma_disallowed_flag_rejected(args: Seq<Seq<char>>, platform: Platform, i: int)
    requires
        0 <= i < args.len(),
        starts_with_seq(args[i], "--"@) || starts_with_seq(args[i], "-"@),
        !is_allowed_arg(flag_name(args[i])),
    ensures
        spec_validate_args(args, platform) is Err,
{
    lemma_dash_token_not_url(args[i]);
    assert(spec_validate_from(args, i, platform) is Err);
    lemma_validate_err_propagates(args, platform, 0, i);
}

/// Any argument list in which a save-path flag is followed by a value
/// holding a parent-directory reference is rejected.
pub proof fn lemma_unsafe_save_path_rejected(args: Seq<Seq<char>>, platform: Platform, i: int)
    requires
        0 <= i < args.len(),
        i + 1 < args.len(),
        is_path_flag(flag_name(args[i])),
        contains_seq(args[i + 1], ".."@),
    ensures
        spec_validate_args(args, platform) is Err,
{
    reveal_strlit("--");
    reveal_strlit("--save-dir");
    reveal_strlit("--save-name");
    reveal_strlit("--tmp-dir");
    assert(starts_with_seq(flag_name(args[i]), "--"@));
    lemma_named_flag_has_dashes(args[i], flag_name(args[i]));
    lemma_dash_token_not_url(args[i]);
    assert(spec_validate_path(args[i + 1], platform) is Err);
    assert(spec_validate_from(args, i, platform) is Err);
    lemma_validate_err_propagates(args, platform, 0, i);
}

/// Any argument list in which the decryption-key flag is followed by a
/// value that neither holds a colon nor starts with `0x` is rejected.
pub proof fn lemma_malformed_key_rejected(args: Seq<Seq<char>>, platform: Platform, i: int)
    requires
        0 <= i < args.len(),
        i + 1 < args.len(),
        flag_name(args[i]) == "--key"@,
        !key_format_ok(args[i + 1]),
    ensures
        spec_validate_args(args, platform) is Err,
{
    reveal_strlit("--");
    reveal_strlit("--key");
    reveal_strlit("--save-dir");
    reveal_strlit("--save-name");
    reveal_strlit("--tmp-dir");
    assert(starts_with_seq("--key"@, "--"@));
    lemma_named_flag_has_dashes(args[i], flag_name(args[i]));
    lemma_dash_token_not_url(args[i]);
    let name = flag_name(args[i]);
    assert(is_allowed_arg(name));
    assert(!is_path_flag(name)) by {
        assert(name.len() == 5);
        assert("--save-dir"@.len() == 10);
        assert("--save-name"@.len() == 11);
        assert("--tmp-dir"@.len() == 9);
    }
    assert(spec_validate_from(args, i, platform) is Err);
    lemma_validate_err_propagates(args, platform, 0, i);
}

} // verus!
