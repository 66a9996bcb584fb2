//! What the table of detection rules holds: which rule weighs how much, which
//! of them are gates, and what each of them looks for.

use vstd::prelude::*;

use crate::patterns::rule_table;
use crate::patterns::AG001_PATTERN;
use crate::patterns::AG002_PATTERN;
use crate::patterns::AG003_PATTERN;
use crate::patterns::AG004_PATTERN;
use crate::patterns::AG010_PATTERN;
use crate::patterns::AG011_PATTERN;
use crate::patterns::AG012_PATTERN;
use crate::patterns::AG013_PATTERN;
use crate::patterns::AG020_PATTERN;
use crate::patterns::AG021_PATTERN;
use crate::patterns::AG022_PATTERN;
use crate::patterns::AG023_PATTERN;
use crate::patterns::AG030_PATTERN;
use crate::patterns::AG031_PATTERN;
use crate::patterns::AG032_PATTERN;
use crate::patterns::AG033_PATTERN;
use crate::patterns::AG034_PATTERN;
use crate::patterns::AG040_PATTERN;
use crate::patterns::AG041_PATTERN;
use crate::patterns::AG042_PATTERN;
use crate::patterns::AG050_PATTERN;
use crate::patterns::AG051_PATTERN;
use crate::patterns::AG052_PATTERN;
use crate::patterns::AG060_PATTERN;
use crate::patterns::AG061_PATTERN;
use crate::patterns::AG062_PATTERN;
use crate::patterns::AG070_PATTERN;
use crate::patterns::AG071_PATTERN;
use crate::patterns::AG072_PATTERN;
use crate::patterns::SUMS_PATTERN;
use crate::patterns::SOURCE_PATTERN;
use crate::patterns::URL_PATTERN;
use crate::patterns::PKGNAME_PATTERN;
use crate::patterns::PKGBASE_PATTERN;

verus! {

/// Whether the rule at place `i` of the table has that id, those points, that
/// gate and that pattern.
pub open spec fn is_rule(
    i: int,
    id: Seq<char>,
    points: int,
    override_gate: bool,
    pattern: Seq<char>,
) -> bool {
    let r = rule_table()[i];
    r.id == id && r.points == points && r.override_gate == override_gate && r.pattern == pattern
}

/// The rules in their order: 95 points are essentially proof, 75 a strong
/// signal, 50 significant. The gates are remote content that is executed,
/// reverse shells by netcat and by `/dev/tcp`, every destructive command, and
/// encoded payloads that are executed.
pub proof fn law_rules()
    ensures
        rule_table().len() == 29,
        is_rule(0, "AG001"@, 95, true, AG001_PATTERN@),
        is_rule(1, "AG002"@, 95, true, AG002_PATTERN@),
        is_rule(2, "AG003"@, 95, true, AG003_PATTERN@),
        is_rule(3, "AG004"@, 75, false, AG004_PATTERN@),
        is_rule(4, "AG010"@, 95, true, AG010_PATTERN@),
        is_rule(5, "AG011"@, 95, true, AG011_PATTERN@),
        is_rule(6, "AG012"@, 75, false, AG012_PATTERN@),
        is_rule(7, "AG013"@, 75, false, AG013_PATTERN@),
        is_rule(8, "AG020"@, 95, true, AG020_PATTERN@),
        is_rule(9, "AG021"@, 95, true, AG021_PATTERN@),
        is_rule(10, "AG022"@, 95, true, AG022_PATTERN@),
        is_rule(11, "AG023"@, 95, true, AG023_PATTERN@),
        is_rule(12, "AG030"@, 75, false, AG030_PATTERN@),
        is_rule(13, "AG031"@, 75, false, AG031_PATTERN@),
        is_rule(14, "AG032"@, 75, false, AG032_PATTERN@),
        is_rule(15, "AG033"@, 75, false, AG033_PATTERN@),
        is_rule(16, "AG034"@, 75, false, AG034_PATTERN@),
        is_rule(17, "AG040"@, 75, false, AG040_PATTERN@),
        is_rule(18, "AG041"@, 75, false, AG041_PATTERN@),
        is_rule(19, "AG042"@, 75, false, AG042_PATTERN@),
        is_rule(20, "AG050"@, 75, true, AG050_PATTERN@),
        is_rule(21, "AG051"@, 75, true, AG051_PATTERN@),
        is_rule(22, "AG052"@, 50, false, AG052_PATTERN@),
        is_rule(23, "AG060"@, 50, false, AG060_PATTERN@),
        is_rule(24, "AG061"@, 50, false, AG061_PATTERN@),
        is_rule(25, "AG062"@, 50, false, AG062_PATTERN@),
        is_rule(26, "AG070"@, 75, false, AG070_PATTERN@),
        is_rule(27, "AG071"@, 75, false, AG071_PATTERN@),
        is_rule(28, "AG072"@, 50, false, AG072_PATTERN@),
{
}

/// What the rules and the fields are looked for by.
pub proof fn law_patterns()
    ensures
        AG001_PATTERN@ == r"(?:curl|wget|fetch|aria2c)\s+[^\n|;&]*?\|\s*(?:sudo\s+)?(?:bash|sh|zsh|ksh|fish|dash|ash)\b"@,
        AG002_PATTERN@ == r"(?:bash|sh|zsh|ksh|source|\.)\s+<\(\s*(?:curl|wget|fetch)\s"@,
        AG003_PATTERN@ == r#"eval\s+["`]?\$?\(\s*(?:curl|wget|fetch)\s"#@,
        AG004_PATTERN@ == r#"(?:^|\s)(?:source|\.)\s+["']?https?://"#@,
        AG010_PATTERN@ == r"\bnc(?:at)?\s+(?:-[a-zA-Z]*e[a-zA-Z]*)\s+\S+\s+\d+"@,
        AG011_PATTERN@ == r"bash\s+-i\s+>&?\s*/dev/(?:tcp|udp)/"@,
        AG012_PATTERN@ == r#"python[0-9.]*\s+-c\s+["'][^"']*\b(?:socket|pty)\b[^"']*\b(?:dup2|spawn|connect)\b"#@,
        AG013_PATTERN@ == r#"perl\s+-e\s+["'][^"']*\bsocket\b[^"']*\bexec\b"#@,
        AG020_PATTERN@ == r"\brm\s+(?:-[a-zA-Z]+\s+)*-[a-zA-Z]*r[a-zA-Z]*f[a-zA-Z]*\s+(?:--no-preserve-root\s+)?(?:/(?:\s|\*|$)|~(?:\s|/|$)|\$HOME|\$ROOT)"@,
        AG021_PATTERN@ == r"\bdd\s+[^\n;&|]*\bof=/dev/(?:sd|nvme|hd|vd|mmcblk|loop|disk)"@,
        AG022_PATTERN@ == r"\b(?:mkfs(?:\.\w+)?|wipefs|shred)\s+[^\n;&|]*/dev/"@,
        AG023_PATTERN@ == r":\(\)\s*\{\s*:\s*\|\s*:?\s*&\s*\}\s*;\s*:"@,
        AG030_PATTERN@ == r#"(?:>>?|tee\s+(?:-a\s+)?)\s*["']?(?:(?:~|\$HOME|/root|/home/[^/\s]+)/\.ssh/authorized_keys|/etc/(?:passwd|shadow|sudoers(?:\.d)?))"#@,
        AG031_PATTERN@ == r#"(?:>>?|tee\s+(?:-a\s+)?)\s*["']?(?:~|\$HOME|/root|/home/[^/\s]+)/\.(?:bashrc|bash_profile|bash_login|zshrc|zshenv|zprofile|profile|xprofile|xinitrc)"#@,
        AG032_PATTERN@ == r"(?:\bcrontab\s+-?[el]?\b|\|\s*crontab\b|>\s*/(?:etc|var/spool)/cron)"@,
        AG033_PATTERN@ == r"\bsystemctl\s+(?:--user\s+)?(?:enable|start|restart|--now)\b"@,
        AG034_PATTERN@ == r"\b(?:useradd|groupadd|usermod|gpasswd)\b"@,
        AG040_PATTERN@ == r"(?m)^[^#\n]*\bsudo\s+\S"@,
        AG041_PATTERN@ == r"\bchmod\s+(?:-[a-zA-Z]+\s+)*(?:[2467]\d{3}|[ugo]?\+s|u\+xs|g\+xs)\b"@,
        AG042_PATTERN@ == r"\bsetcap\s+(?:cap_|all=)"@,
        AG050_PATTERN@ == r"\b(?:base64\s+(?:-d|--decode)|openssl\s+(?:enc\s+)?-base64\s+-d)\b[^\n;&|]*\|\s*(?:bash|sh|zsh|eval)"@,
        AG051_PATTERN@ == r#"\b(?:xxd\s+-r|printf\s+["'][^"']*(?:\\x[0-9a-fA-F]{2}){4,})[^\n;&|]*\|\s*(?:bash|sh|zsh)"#@,
        AG052_PATTERN@ == r#"=\s*["'][A-Za-z0-9+/]{120,}={0,2}["']"#@,
        AG060_PATTERN@ == r"(?:curl|wget|nc|ncat|ssh|scp)\s+[^\n;&|]*\b(?:https?://|//)?(?:\d{1,3}\.){3}\d{1,3}\b"@,
        AG061_PATTERN@ == r"https?://(?:bit\.ly|tinyurl\.com|goo\.gl|t\.co|ow\.ly|is\.gd|buff\.ly|adf\.ly|cutt\.ly|rebrand\.ly)/"@,
        AG062_PATTERN@ == r"\b(?:ngrok|cloudflared|serveo\.net|localhost\.run|pinggy\.io|loophole\.cloud)\b"@,
        AG070_PATTERN@ == r"(?:~|\$HOME|/root|/home/[^/\s]+)/\.ssh/(?:id_(?:rsa|ed25519|ecdsa|dsa)|known_hosts)\b"@,
        AG071_PATTERN@ == r"(?:~|\$HOME|/root|/home/[^/\s]+)/(?:\.(?:bitcoin|electrum|ethereum|gnupg|aws|kube|docker|netrc|config/(?:google-chrome|chromium|BraveSoftware|Mozilla/firefox))|\.env)\b"@,
        AG072_PATTERN@ == r"curl\s+(?:-[a-zA-Z]+\s+)*(?:-X\s+POST|--data\b|-d\s|-F\s)\s*[^\n;&|]*https?://"@,
        SUMS_PATTERN@ == r"(?ms)^\s*(?:md5|sha1|sha224|sha256|sha384|sha512|b2)sums(?:_\w+)?=\(([^)]*)\)"@,
        SOURCE_PATTERN@ == r"(?ms)^\s*source(?:_\w+)?=\(([^)]*)\)"@,
        URL_PATTERN@ == r#"(?m)^\s*url\s*=\s*["']?(https?://[^\s"'`]+)["']?"#@,
        PKGNAME_PATTERN@ == r#"(?m)^\s*pkgname\s*=\s*\(?\s*['"]?([A-Za-z0-9._+@-]+)"#@,
        PKGBASE_PATTERN@ == r#"(?m)^\s*pkgbase\s*=\s*['"]?([A-Za-z0-9._+@-]+)"#@,
{
}

}
