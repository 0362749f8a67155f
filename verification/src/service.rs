//! Service files that start the daemon at login: a launchd agent on macOS
//! and a systemd user unit on Linux, each written from a template in which
//! `{BINARY}` stands for the daemon's executable.
use vstd::prelude::*;
use crate::text::{chars_of, concat, occurs_at, occurs_at_exec, push_char, push_chars};

verus! {

/// The placeholder for the daemon's executable.
pub const BINARY_PLACEHOLDER: &'static str = "{BINARY}";

/// The launchd agent: label `com.ambient-fs.daemon`, run at load and kept
/// alive, starting the daemon in the foreground.
pub const LAUNCHD_PLIST_TEMPLATE: &'static str = "<?xml version=\"1.0\" encoding=\"UTF-8\"?>\n<!DOCTYPE plist PUBLIC \"-//Apple//DTD PLIST 1.0//EN\" \"http://www.apple.com/DTDs/PropertyList-1.0.dtd\">\n<plist version=\"1.0\">\n<dict>\n    <key>Label</key>\n    <string>com.ambient-fs.daemon</string>\n    <key>ProgramArguments</key>\n    <array>\n        <string>{BINARY}</string>\n        <string>start</string>\n        <string>--foreground</string>\n    </array>\n    <key>RunAtLoad</key>\n    <true/>\n    <key>KeepAlive</key>\n    <true/>\n</dict>\n</plist>\n";

/// The systemd user unit: a simple service starting the daemon in the
/// foreground, restarted five seconds after a failure.
pub const SYSTEMD_SERVICE_TEMPLATE: &'static str = "[Unit]\nDescription=ambient-fs filesystem awareness daemon\n\n[Service]\nType=simple\nExecStart={BINARY} start --foreground\nRestart=on-failure\nRestartSec=5\n\n[Install]\nWantedBy=default.target\n";

/// `s` from index `i` on with every occurrence of `p` replaced by `r`,
/// occurrences taken left to right without overlap (`str::replace`).
pub open spec fn replace_from(s: Seq<char>, p: Seq<char>, r: Seq<char>, i: int) -> Seq<char>
    decreases s.len() - i,
{
    if i < 0 || i >= s.len() {
        seq![]
    } else if p.len() > 0 && occurs_at(s, p, i) {
        r + replace_from(s, p, r, i + p.len())
    } else {
        seq![s[i]] + replace_from(s, p, r, i + 1)
    }
}

/// `s` with every occurrence of `p` replaced by `r`.
pub open spec fn replace_all(s: Seq<char>, p: Seq<char>, r: Seq<char>) -> Seq<char> {
    replace_from(s, p, r, 0)
}

/// `s.replace(pattern, replacement)` for a non-empty pattern.
pub fn replace(s: &str, pattern: &str, replacement: &str) -> (out: String)
    requires
        pattern@.len() > 0,
    ensures
        out@ == replace_all(s@, pattern@, replacement@),
{
    let cs = chars_of(s);
    let pc = chars_of(pattern);
    let rc = chars_of(replacement);
    let n = cs.len();
    let m = pc.len();
    let mut out = String::new();
    let mut i: usize = 0;
    while i < n
        invariant
            n == cs@.len(),
            m == pc@.len(),
            m > 0,
            cs@ == s@,
            pc@ == pattern@,
            rc@ == replacement@,
            i <= n,
            out@ + replace_from(s@, pattern@, replacement@, i as int) == replace_all(s@, pattern@, replacement@),
        decreases n - i,
    {
        if occurs_at_exec(cs.as_slice(), pc.as_slice(), i) {
            let ghost before = out@;
            push_chars(&mut out, rc.as_slice());
            assert(before + replace_from(s@, pattern@, replacement@, i as int) == out@ + replace_from(
                s@,
                pattern@,
                replacement@,
                i + m,
            ));
            i = i + m;
        } else {
            let ghost before = out@;
            push_char(&mut out, cs[i]);
            assert(before + replace_from(s@, pattern@, replacement@, i as int) == out@ + replace_from(
                s@,
                pattern@,
                replacement@,
                i + 1,
            ));
            i = i + 1;
        }
    }
    assert(out@ + replace_from(s@, pattern@, replacement@, i as int) == out@);
    out
}

/// A service file template with the daemon's executable filled in.
pub fn render_service_template(template: &str, binary: &str) -> (r: String)
    ensures
        r@ == replace_all(template@, "{BINARY}"@, binary@),
{
    proof {
        reveal_strlit("{BINARY}");
    }
    replace(template, "{BINARY}", binary)
}

/// Where the launchd agent goes for the user whose home is `home`.
pub fn launchd_plist_path(home: &str) -> (r: String)
    ensures
        r@ == home@ + "/Library/LaunchAgents/com.ambient-fs.daemon.plist"@,
{
    concat(home, "/Library/LaunchAgents/com.ambient-fs.daemon.plist")
}

/// Where the systemd unit goes for the user whose home is `home`.
pub fn systemd_service_path(home: &str) -> (r: String)
    ensures
        r@ == home@ + "/.config/systemd/user/ambient-fsd.service"@,
{
    concat(home, "/.config/systemd/user/ambient-fsd.service")
}

/// Text without the placeholder is left as it is.
pub proof fn law_replace_without_occurrence(s: Seq<char>, p: Seq<char>, r: Seq<char>, i: int)
    requires
        0 <= i <= s.len(),
        p.len() > 0,
        forall|j: int| i <= j < s.len() ==> !occurs_at(s, p, j),
    ensures
        replace_from(s, p, r, i) == s.subrange(i, s.len() as int),
    decreases s.len() - i,
{
    if i < s.len() {
        law_replace_without_occurrence(s, p, r, i + 1);
        assert(s.subrange(i, s.len() as int) == seq![s[i]] + s.subrange(i + 1, s.len() as int));
    } else {
        assert(s.subrange(i, s.len() as int) =~= seq![]);
    }
}

} // verus!
