//! The regular expressions of the crate: the detection rules, and the
//! patterns by which a PKGBUILD's arrays and fields are found.

use regex::Regex;
use vstd::prelude::*;

use crate::outside::compile;
use crate::outside::regex_source;
use crate::report::severity_of;
use crate::report::Severity;

verus! {

// --- Remote content run by a shell ---

pub const AG001_TITLE: &'static str = "Descarga remota canalizada a un shell";

pub const AG001_DESCRIPTION: &'static str = "curl/wget/fetch cuya salida se canaliza directamente a bash/sh/zsh/etc. El contenido descargado no se verifica y puede cambiar entre instalaciones.";

pub const AG001_PATTERN: &'static str = r"(?:curl|wget|fetch|aria2c)\s+[^\n|;&]*?\|\s*(?:sudo\s+)?(?:bash|sh|zsh|ksh|fish|dash|ash)\b";

pub const AG002_TITLE: &'static str = "Sustitución de proceso con descarga remota";

pub const AG002_DESCRIPTION: &'static str = "Equivalente a 'curl | bash' pero usando bash <(curl ...). Ejecuta contenido remoto sin verificación.";

pub const AG002_PATTERN: &'static str = r"(?:bash|sh|zsh|ksh|source|\.)\s+<\(\s*(?:curl|wget|fetch)\s";

pub const AG003_TITLE: &'static str = "eval sobre descarga remota";

pub const AG003_DESCRIPTION: &'static str = "eval ejecuta su argumento como código. Combinado con curl/wget descarga y ejecuta código no verificado.";

pub const AG003_PATTERN: &'static str = r#"eval\s+["`]?\$?\(\s*(?:curl|wget|fetch)\s"#;

pub const AG004_TITLE: &'static str = "source/. desde URL remota";

pub const AG004_DESCRIPTION: &'static str = "Cargar y ejecutar un script directamente desde la red sin descargarlo a la fuente del paquete.";

pub const AG004_PATTERN: &'static str = r#"(?:^|\s)(?:source|\.)\s+["']?https?://"#;

// --- Reverse shells ---

pub const AG010_TITLE: &'static str = "Reverse shell con netcat (-e)";

pub const AG010_DESCRIPTION: &'static str = "netcat con el flag -e ejecuta un programa en cada conexión; patrón clásico de reverse shell.";

pub const AG010_PATTERN: &'static str = r"\bnc(?:at)?\s+(?:-[a-zA-Z]*e[a-zA-Z]*)\s+\S+\s+\d+";

pub const AG011_TITLE: &'static str = "Reverse shell con bash /dev/tcp";

pub const AG011_DESCRIPTION: &'static str = "Patrón clásico de reverse shell usando el dispositivo virtual /dev/tcp de bash.";

pub const AG011_PATTERN: &'static str = r"bash\s+-i\s+>&?\s*/dev/(?:tcp|udp)/";

pub const AG012_TITLE: &'static str = "Reverse shell en Python";

pub const AG012_DESCRIPTION: &'static str = "Importación de socket+pty+subprocess típica de reverse shells en una sola línea.";

pub const AG012_PATTERN: &'static str = r#"python[0-9.]*\s+-c\s+["'][^"']*\b(?:socket|pty)\b[^"']*\b(?:dup2|spawn|connect)\b"#;

pub const AG013_TITLE: &'static str = "Reverse shell en Perl";

pub const AG013_DESCRIPTION: &'static str = "Uso de Perl con socket+exec característico de reverse shells.";

pub const AG013_PATTERN: &'static str = r#"perl\s+-e\s+["'][^"']*\bsocket\b[^"']*\bexec\b"#;

// --- Destructive commands ---

pub const AG020_TITLE: &'static str = "rm recursivo apuntando a la raíz del sistema";

pub const AG020_DESCRIPTION: &'static str = "rm -rf en o cerca de /. Si se ejecuta como un usuario común aún puede destruir el HOME, y --no-preserve-root permite incluso destruir el sistema.";

pub const AG020_PATTERN: &'static str = r"\brm\s+(?:-[a-zA-Z]+\s+)*-[a-zA-Z]*r[a-zA-Z]*f[a-zA-Z]*\s+(?:--no-preserve-root\s+)?(?:/(?:\s|\*|$)|~(?:\s|/|$)|\$HOME|\$ROOT)";

pub const AG021_TITLE: &'static str = "dd escribiendo a un dispositivo de bloque";

pub const AG021_DESCRIPTION: &'static str = "dd con of=/dev/sd*, nvme*, vd*, hd* destruirá los datos del disco.";

pub const AG021_PATTERN: &'static str = r"\bdd\s+[^\n;&|]*\bof=/dev/(?:sd|nvme|hd|vd|mmcblk|loop|disk)";

pub const AG022_TITLE: &'static str = "Formato de sistema de archivos";

pub const AG022_DESCRIPTION: &'static str = "mkfs/wipefs sobre un dispositivo. Destruye los datos existentes.";

pub const AG022_PATTERN: &'static str = r"\b(?:mkfs(?:\.\w+)?|wipefs|shred)\s+[^\n;&|]*/dev/";

pub const AG023_TITLE: &'static str = "Fork bomb";

pub const AG023_DESCRIPTION: &'static str = "Construcción típica de fork bomb en bash que agota recursos del sistema.";

pub const AG023_PATTERN: &'static str = r":\(\)\s*\{\s*:\s*\|\s*:?\s*&\s*\}\s*;\s*:";

// --- Persistence ---

pub const AG030_TITLE: &'static str = "Escritura en authorized_keys o cuentas del sistema";

pub const AG030_DESCRIPTION: &'static str = "Añadir claves SSH o modificar passwd/shadow/sudoers desde un PKGBUILD es una técnica de backdoor.";

pub const AG030_PATTERN: &'static str = r#"(?:>>?|tee\s+(?:-a\s+)?)\s*["']?(?:(?:~|\$HOME|/root|/home/[^/\s]+)/\.ssh/authorized_keys|/etc/(?:passwd|shadow|sudoers(?:\.d)?))"#;

pub const AG031_TITLE: &'static str = "Modificación de archivos de inicio del shell";

pub const AG031_DESCRIPTION: &'static str = "Modificar .bashrc, .zshrc, .profile, etc., desde build() establece persistencia en la sesión del usuario.";

pub const AG031_PATTERN: &'static str = r#"(?:>>?|tee\s+(?:-a\s+)?)\s*["']?(?:~|\$HOME|/root|/home/[^/\s]+)/\.(?:bashrc|bash_profile|bash_login|zshrc|zshenv|zprofile|profile|xprofile|xinitrc)"#;

pub const AG032_TITLE: &'static str = "Manipulación de crontab";

pub const AG032_DESCRIPTION: &'static str = "Añadir entradas al crontab o a /etc/cron* es un mecanismo común de persistencia.";

pub const AG032_PATTERN: &'static str = r"(?:\bcrontab\s+-?[el]?\b|\|\s*crontab\b|>\s*/(?:etc|var/spool)/cron)";

pub const AG033_TITLE: &'static str = "Activación de servicios systemd en build";

pub const AG033_DESCRIPTION: &'static str = "systemctl enable/start dentro de un PKGBUILD activa servicios sin consentimiento. Esto debe ir en un .install scriptlet.";

pub const AG033_PATTERN: &'static str = r"\bsystemctl\s+(?:--user\s+)?(?:enable|start|restart|--now)\b";

pub const AG034_TITLE: &'static str = "Adición de usuarios o grupos en build";

pub const AG034_DESCRIPTION: &'static str = "useradd/groupadd/usermod fuera de un scriptlet .install puede crear cuentas privilegiadas a espaldas del usuario.";

pub const AG034_PATTERN: &'static str = r"\b(?:useradd|groupadd|usermod|gpasswd)\b";

// --- Privilege escalation ---

pub const AG040_TITLE: &'static str = "sudo dentro del PKGBUILD";

pub const AG040_DESCRIPTION: &'static str = "makepkg rehúsa ejecutarse como root, por lo que un sudo dentro del PKGBUILD intenta obtener privilegios durante la compilación.";

pub const AG040_PATTERN: &'static str = r"(?m)^[^#\n]*\bsudo\s+\S";

pub const AG041_TITLE: &'static str = "Establece bit SUID/SGID";

pub const AG041_DESCRIPTION: &'static str = "chmod con modo numérico 4xxx/2xxx o +s permite ejecución con privilegios del propietario del archivo.";

pub const AG041_PATTERN: &'static str = r"\bchmod\s+(?:-[a-zA-Z]+\s+)*(?:[2467]\d{3}|[ugo]?\+s|u\+xs|g\+xs)\b";

pub const AG042_TITLE: &'static str = "Capabilities concedidas a un binario";

pub const AG042_DESCRIPTION: &'static str = "setcap puede otorgar capacidades elevadas (cap_net_admin, cap_sys_admin, etc.) a binarios del paquete.";

pub const AG042_PATTERN: &'static str = r"\bsetcap\s+(?:cap_|all=)";

// --- Obfuscation ---

pub const AG050_TITLE: &'static str = "Payload base64 decodificado y ejecutado";

pub const AG050_DESCRIPTION: &'static str = "base64 -d canalizado a bash/sh/eval suele ocultar payloads.";

pub const AG050_PATTERN: &'static str = r"\b(?:base64\s+(?:-d|--decode)|openssl\s+(?:enc\s+)?-base64\s+-d)\b[^\n;&|]*\|\s*(?:bash|sh|zsh|eval)";

pub const AG051_TITLE: &'static str = "Payload hexadecimal decodificado y ejecutado";

pub const AG051_DESCRIPTION: &'static str = "xxd -r o printf con escapes \\x canalizados a un shell ocultan payloads.";

pub const AG051_PATTERN: &'static str = r#"\b(?:xxd\s+-r|printf\s+["'][^"']*(?:\\x[0-9a-fA-F]{2}){4,})[^\n;&|]*\|\s*(?:bash|sh|zsh)"#;

pub const AG052_TITLE: &'static str = "Función bash con cuerpo en base64";

pub const AG052_DESCRIPTION: &'static str = "Variable con cadena base64 grande y eval/decodificación adyacente es patrón típico de ofuscación.";

pub const AG052_PATTERN: &'static str = r#"=\s*["'][A-Za-z0-9+/]{120,}={0,2}["']"#;

// --- Network ---

pub const AG060_TITLE: &'static str = "Conexión a IP literal";

pub const AG060_DESCRIPTION: &'static str = "Descargas o conexiones a direcciones IP en lugar de a un dominio. Inusual y dificulta auditoría.";

pub const AG060_PATTERN: &'static str = r"(?:curl|wget|nc|ncat|ssh|scp)\s+[^\n;&|]*\b(?:https?://|//)?(?:\d{1,3}\.){3}\d{1,3}\b";

pub const AG061_TITLE: &'static str = "Acortador de URL como fuente";

pub const AG061_DESCRIPTION: &'static str = "Los acortadores ocultan el destino real y son extraordinariamente inusuales en PKGBUILDs honestos.";

pub const AG061_PATTERN: &'static str = r"https?://(?:bit\.ly|tinyurl\.com|goo\.gl|t\.co|ow\.ly|is\.gd|buff\.ly|adf\.ly|cutt\.ly|rebrand\.ly)/";

pub const AG062_TITLE: &'static str = "Tunelización (Cloudflare/ngrok/serveo)";

pub const AG062_DESCRIPTION: &'static str = "Servicios de túnel inverso para exponer servicios. Inesperado en una build de paquete.";

pub const AG062_PATTERN: &'static str = r"\b(?:ngrok|cloudflared|serveo\.net|localhost\.run|pinggy\.io|loophole\.cloud)\b";

// --- Credentials and exfiltration ---

pub const AG070_TITLE: &'static str = "Lectura de claves SSH del usuario";

pub const AG070_DESCRIPTION: &'static str = "Acceder a claves privadas del usuario (~/.ssh/id_*) desde un PKGBUILD no tiene justificación.";

pub const AG070_PATTERN: &'static str = r"(?:~|\$HOME|/root|/home/[^/\s]+)/\.ssh/(?:id_(?:rsa|ed25519|ecdsa|dsa)|known_hosts)\b";

pub const AG071_TITLE: &'static str = "Lectura de carteras / contraseñas / tokens";

pub const AG071_DESCRIPTION: &'static str = "Lectura de archivos de credenciales conocidos (wallets, gnome-keyring, navegadores, .env).";

pub const AG071_PATTERN: &'static str = r"(?:~|\$HOME|/root|/home/[^/\s]+)/(?:\.(?:bitcoin|electrum|ethereum|gnupg|aws|kube|docker|netrc|config/(?:google-chrome|chromium|BraveSoftware|Mozilla/firefox))|\.env)\b";

pub const AG072_TITLE: &'static str = "Filtración por curl POST a host externo";

pub const AG072_DESCRIPTION: &'static str = "curl con --data/-d o -F apuntando a un host externo desde un PKGBUILD puede filtrar datos.";

pub const AG072_PATTERN: &'static str = r"curl\s+(?:-[a-zA-Z]+\s+)*(?:-X\s+POST|--data\b|-d\s|-F\s)\s*[^\n;&|]*https?://";

// --- Fields of a PKGBUILD ---

/// A checksum array; the group holds what stands between its parentheses.
pub const SUMS_PATTERN: &'static str = r"(?ms)^\s*(?:md5|sha1|sha224|sha256|sha384|sha512|b2)sums(?:_\w+)?=\(([^)]*)\)";

/// A source array; the group holds what stands between its parentheses.
pub const SOURCE_PATTERN: &'static str = r"(?ms)^\s*source(?:_\w+)?=\(([^)]*)\)";

/// The declared upstream; the group holds the URL.
pub const URL_PATTERN: &'static str = r#"(?m)^\s*url\s*=\s*["']?(https?://[^\s"'`]+)["']?"#;

/// `pkgname=foo` or `pkgname=(foo bar baz)`; the group holds the first
/// identifier.
pub const PKGNAME_PATTERN: &'static str = r#"(?m)^\s*pkgname\s*=\s*\(?\s*['"]?([A-Za-z0-9._+@-]+)"#;

/// `pkgbase=foo`; the group holds the identifier.
pub const PKGBASE_PATTERN: &'static str = r#"(?m)^\s*pkgbase\s*=\s*['"]?([A-Za-z0-9._+@-]+)"#;

/// Whether the character can stand in the name of a package.
pub open spec fn is_name_char(c: char) -> bool {
    ||| 'A' <= c <= 'Z'
    ||| 'a' <= c <= 'z'
    ||| '0' <= c <= '9'
    ||| c == '.'
    ||| c == '_'
    ||| c == '+'
    ||| c == '@'
    ||| c == '-'
}

/// Whether the text can be the name of a package.
pub open spec fn is_name(s: Seq<char>) -> bool {
    s.len() > 0 && forall|i: int| 0 <= i < s.len() ==> is_name_char(#[trigger] s[i])
}

/// Whether the pattern captures the name of a package.
pub open spec fn is_name_pattern(p: Seq<char>) -> bool {
    p == PKGNAME_PATTERN@ || p == PKGBASE_PATTERN@
}

/// The patterns that capture a field of a PKGBUILD. Each has one group, which
/// takes part in every match, and matches no empty text.
pub open spec fn is_field_pattern(p: Seq<char>) -> bool {
    ||| p == SUMS_PATTERN@
    ||| p == SOURCE_PATTERN@
    ||| p == URL_PATTERN@
    ||| p == PKGNAME_PATTERN@
    ||| p == PKGBASE_PATTERN@
}

/// The patterns of the crate. Each is a valid regular expression.
pub open spec fn is_known_pattern(p: Seq<char>) -> bool {
    ||| is_field_pattern(p)
    ||| p == AG001_PATTERN@
    ||| p == AG002_PATTERN@
    ||| p == AG003_PATTERN@
    ||| p == AG004_PATTERN@
    ||| p == AG010_PATTERN@
    ||| p == AG011_PATTERN@
    ||| p == AG012_PATTERN@
    ||| p == AG013_PATTERN@
    ||| p == AG020_PATTERN@
    ||| p == AG021_PATTERN@
    ||| p == AG022_PATTERN@
    ||| p == AG023_PATTERN@
    ||| p == AG030_PATTERN@
    ||| p == AG031_PATTERN@
    ||| p == AG032_PATTERN@
    ||| p == AG033_PATTERN@
    ||| p == AG034_PATTERN@
    ||| p == AG040_PATTERN@
    ||| p == AG041_PATTERN@
    ||| p == AG042_PATTERN@
    ||| p == AG050_PATTERN@
    ||| p == AG051_PATTERN@
    ||| p == AG052_PATTERN@
    ||| p == AG060_PATTERN@
    ||| p == AG061_PATTERN@
    ||| p == AG062_PATTERN@
    ||| p == AG070_PATTERN@
    ||| p == AG071_PATTERN@
    ||| p == AG072_PATTERN@
}

/// A detection rule: a regular expression held against each line.
pub struct Rule {
    pub id: &'static str,
    /// How much risk a match contributes, of 100: 50 is significant, 75 a
    /// strong signal, 95 essentially proof.
    pub points: u32,
    /// Whether one match alone is enough to declare the package malicious.
    pub override_gate: bool,
    pub title: &'static str,
    pub description: &'static str,
    pub regex: Regex,
}

/// What a [`Rule`] says.
#[verifier::ext_equal]
pub struct RuleView {
    pub id: Seq<char>,
    pub points: int,
    pub override_gate: bool,
    pub title: Seq<char>,
    pub description: Seq<char>,
    pub pattern: Seq<char>,
}

impl View for Rule {
    type V = RuleView;

    open spec fn view(&self) -> RuleView {
        RuleView {
            id: self.id@,
            points: self.points as int,
            override_gate: self.override_gate,
            title: self.title@,
            description: self.description@,
            pattern: regex_source(self.regex),
        }
    }
}

impl Rule {
    /// How heavy a match of the rule is.
    pub fn severity(&self) -> (s: Severity)
        ensures
            s == severity_of(self@.points, self@.override_gate),
    {
        Severity::from_points(self.points, self.override_gate)
    }
}

/// What a list of rules says.
pub open spec fn rules_view(rules: Seq<Rule>) -> Seq<RuleView> {
    rules.map_values(|r: Rule| r@)
}

pub open spec fn rule_view(
    id: Seq<char>,
    points: int,
    override_gate: bool,
    title: Seq<char>,
    description: Seq<char>,
    pattern: Seq<char>,
) -> RuleView {
    RuleView { id, points, override_gate, title, description, pattern }
}

/// The detection rules.
pub open spec fn rule_table() -> Seq<RuleView> {
    seq![
        rule_view("AG001"@, 95, true, AG001_TITLE@, AG001_DESCRIPTION@, AG001_PATTERN@),
        rule_view("AG002"@, 95, true, AG002_TITLE@, AG002_DESCRIPTION@, AG002_PATTERN@),
        rule_view("AG003"@, 95, true, AG003_TITLE@, AG003_DESCRIPTION@, AG003_PATTERN@),
        rule_view("AG004"@, 75, false, AG004_TITLE@, AG004_DESCRIPTION@, AG004_PATTERN@),
        rule_view("AG010"@, 95, true, AG010_TITLE@, AG010_DESCRIPTION@, AG010_PATTERN@),
        rule_view("AG011"@, 95, true, AG011_TITLE@, AG011_DESCRIPTION@, AG011_PATTERN@),
        rule_view("AG012"@, 75, false, AG012_TITLE@, AG012_DESCRIPTION@, AG012_PATTERN@),
        rule_view("AG013"@, 75, false, AG013_TITLE@, AG013_DESCRIPTION@, AG013_PATTERN@),
        rule_view("AG020"@, 95, true, AG020_TITLE@, AG020_DESCRIPTION@, AG020_PATTERN@),
        rule_view("AG021"@, 95, true, AG021_TITLE@, AG021_DESCRIPTION@, AG021_PATTERN@),
        rule_view("AG022"@, 95, true, AG022_TITLE@, AG022_DESCRIPTION@, AG022_PATTERN@),
        rule_view("AG023"@, 95, true, AG023_TITLE@, AG023_DESCRIPTION@, AG023_PATTERN@),
        rule_view("AG030"@, 75, false, AG030_TITLE@, AG030_DESCRIPTION@, AG030_PATTERN@),
        rule_view("AG031"@, 75, false, AG031_TITLE@, AG031_DESCRIPTION@, AG031_PATTERN@),
        rule_view("AG032"@, 75, false, AG032_TITLE@, AG032_DESCRIPTION@, AG032_PATTERN@),
        rule_view("AG033"@, 75, false, AG033_TITLE@, AG033_DESCRIPTION@, AG033_PATTERN@),
        rule_view("AG034"@, 75, false, AG034_TITLE@, AG034_DESCRIPTION@, AG034_PATTERN@),
        rule_view("AG040"@, 75, false, AG040_TITLE@, AG040_DESCRIPTION@, AG040_PATTERN@),
        rule_view("AG041"@, 75, false, AG041_TITLE@, AG041_DESCRIPTION@, AG041_PATTERN@),
        rule_view("AG042"@, 75, false, AG042_TITLE@, AG042_DESCRIPTION@, AG042_PATTERN@),
        rule_view("AG050"@, 75, true, AG050_TITLE@, AG050_DESCRIPTION@, AG050_PATTERN@),
        rule_view("AG051"@, 75, true, AG051_TITLE@, AG051_DESCRIPTION@, AG051_PATTERN@),
        rule_view("AG052"@, 50, false, AG052_TITLE@, AG052_DESCRIPTION@, AG052_PATTERN@),
        rule_view("AG060"@, 50, false, AG060_TITLE@, AG060_DESCRIPTION@, AG060_PATTERN@),
        rule_view("AG061"@, 50, false, AG061_TITLE@, AG061_DESCRIPTION@, AG061_PATTERN@),
        rule_view("AG062"@, 50, false, AG062_TITLE@, AG062_DESCRIPTION@, AG062_PATTERN@),
        rule_view("AG070"@, 75, false, AG070_TITLE@, AG070_DESCRIPTION@, AG070_PATTERN@),
        rule_view("AG071"@, 75, false, AG071_TITLE@, AG071_DESCRIPTION@, AG071_PATTERN@),
        rule_view("AG072"@, 50, false, AG072_TITLE@, AG072_DESCRIPTION@, AG072_PATTERN@),
    ]
}

fn rule(
    id: &'static str,
    points: u32,
    override_gate: bool,
    title: &'static str,
    description: &'static str,
    pattern: &'static str,
) -> (r: Rule)
    requires
        is_known_pattern(pattern@),
    ensures
        r@ == rule_view(id@, points as int, override_gate, title@, description@, pattern@),
{
    Rule { id, points, override_gate, title, description, regex: compile(pattern) }
}

/// The detection rules, their expressions compiled.
pub fn build_rules() -> (rules: Vec<Rule>)
    ensures
        rules_view(rules@) == rule_table(),
{
    let mut rules: Vec<Rule> = Vec::new();
    rules.push(rule("AG001", 95, true, AG001_TITLE, AG001_DESCRIPTION, AG001_PATTERN));
    rules.push(rule("AG002", 95, true, AG002_TITLE, AG002_DESCRIPTION, AG002_PATTERN));
    rules.push(rule("AG003", 95, true, AG003_TITLE, AG003_DESCRIPTION, AG003_PATTERN));
    rules.push(rule("AG004", 75, false, AG004_TITLE, AG004_DESCRIPTION, AG004_PATTERN));
    rules.push(rule("AG010", 95, true, AG010_TITLE, AG010_DESCRIPTION, AG010_PATTERN));
    rules.push(rule("AG011", 95, true, AG011_TITLE, AG011_DESCRIPTION, AG011_PATTERN));
    rules.push(rule("AG012", 75, false, AG012_TITLE, AG012_DESCRIPTION, AG012_PATTERN));
    rules.push(rule("AG013", 75, false, AG013_TITLE, AG013_DESCRIPTION, AG013_PATTERN));
    rules.push(rule("AG020", 95, true, AG020_TITLE, AG020_DESCRIPTION, AG020_PATTERN));
    rules.push(rule("AG021", 95, true, AG021_TITLE, AG021_DESCRIPTION, AG021_PATTERN));
    rules.push(rule("AG022", 95, true, AG022_TITLE, AG022_DESCRIPTION, AG022_PATTERN));
    rules.push(rule("AG023", 95, true, AG023_TITLE, AG023_DESCRIPTION, AG023_PATTERN));
    rules.push(rule("AG030", 75, false, AG030_TITLE, AG030_DESCRIPTION, AG030_PATTERN));
    rules.push(rule("AG031", 75, false, AG031_TITLE, AG031_DESCRIPTION, AG031_PATTERN));
    rules.push(rule("AG032", 75, false, AG032_TITLE, AG032_DESCRIPTION, AG032_PATTERN));
    rules.push(rule("AG033", 75, false, AG033_TITLE, AG033_DESCRIPTION, AG033_PATTERN));
    rules.push(rule("AG034", 75, false, AG034_TITLE, AG034_DESCRIPTION, AG034_PATTERN));
    rules.push(rule("AG040", 75, false, AG040_TITLE, AG040_DESCRIPTION, AG040_PATTERN));
    rules.push(rule("AG041", 75, false, AG041_TITLE, AG041_DESCRIPTION, AG041_PATTERN));
    rules.push(rule("AG042", 75, false, AG042_TITLE, AG042_DESCRIPTION, AG042_PATTERN));
    rules.push(rule("AG050", 75, true, AG050_TITLE, AG050_DESCRIPTION, AG050_PATTERN));
    rules.push(rule("AG051", 75, true, AG051_TITLE, AG051_DESCRIPTION, AG051_PATTERN));
    rules.push(rule("AG052", 50, false, AG052_TITLE, AG052_DESCRIPTION, AG052_PATTERN));
    rules.push(rule("AG060", 50, false, AG060_TITLE, AG060_DESCRIPTION, AG060_PATTERN));
    rules.push(rule("AG061", 50, false, AG061_TITLE, AG061_DESCRIPTION, AG061_PATTERN));
    rules.push(rule("AG062", 50, false, AG062_TITLE, AG062_DESCRIPTION, AG062_PATTERN));
    rules.push(rule("AG070", 75, false, AG070_TITLE, AG070_DESCRIPTION, AG070_PATTERN));
    rules.push(rule("AG071", 75, false, AG071_TITLE, AG071_DESCRIPTION, AG071_PATTERN));
    rules.push(rule("AG072", 50, false, AG072_TITLE, AG072_DESCRIPTION, AG072_PATTERN));
    assert(rules_view(rules@) =~= rule_table());
    rules
}

}
