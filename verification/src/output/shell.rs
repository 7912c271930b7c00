//! Shell selection and export statements.

use vstd::prelude::*;
use crate::error::Error;
use crate::text::owned;

verus! {

/// Supported shell types for export formatting.
#[derive(Debug, Clone, Copy, PartialEq, Eq, Structural)]
pub enum ShellType {
    /// Bourne Again Shell (bash).
    Bash,
    /// Z Shell (zsh).
    Zsh,
    /// Friendly Interactive Shell (fish).
    Fish,
    /// PowerShell.
    PowerShell,
}

/// The character with ASCII letters lowered.
pub open spec fn ascii_lower_char(c: char) -> char {
    if 'A' <= c && c <= 'Z' { ((c as u32) + 32) as char } else { c }
}

/// The string with ASCII letters lowered.
pub open spec fn ascii_lower(s: Seq<char>) -> Seq<char> {
    s.map_values(|c: char| ascii_lower_char(c))
}

/// The shell a lower-case name stands for.
pub open spec fn shell_named(name: Seq<char>) -> Option<ShellType> {
    if name == "bash"@ || name == "sh"@ {
        Some(ShellType::Bash)
    } else if name == "zsh"@ {
        Some(ShellType::Zsh)
    } else if name == "fish"@ {
        Some(ShellType::Fish)
    } else if name == "powershell"@ || name == "pwsh"@ || name == "ps"@ {
        Some(ShellType::PowerShell)
    } else {
        None
    }
}

/// The shell the environment points to: `ZSH_VERSION`, `FISH_VERSION` and
/// `PSModulePath` decide in that order when set; then the `SHELL` path, by
/// the name it contains; bash otherwise.
pub open spec fn spec_detect(zsh_version: bool, fish_version: bool, ps_module_path: bool, shell: Option<Seq<char>>) -> ShellType {
    if zsh_version {
        ShellType::Zsh
    } else if fish_version {
        ShellType::Fish
    } else if ps_module_path {
        ShellType::PowerShell
    } else {
        match shell {
            Some(p) => if contains_text(p, "zsh"@) {
                ShellType::Zsh
            } else if contains_text(p, "fish"@) {
                ShellType::Fish
            } else if contains_text(p, "pwsh"@) || contains_text(p, "powershell"@) {
                ShellType::PowerShell
            } else {
                ShellType::Bash
            },
            None => ShellType::Bash,
        }
    }
}

/// Whether `needle` occurs in `s`.
pub open spec fn contains_text(s: Seq<char>, needle: Seq<char>) -> bool {
    exists|i: int| 0 <= i && i + needle.len() <= s.len() && #[trigger] s.subrange(i, i + needle.len()) == needle
}

/// Whether `needle` occurs in `s`.
fn contains_chars(s: &Vec<char>, needle: &str) -> (r: bool)
    ensures
        r == contains_text(s@, needle@),
{
    let nd = crate::text::chars_of(needle);
    let n = nd.len();
    if n > s.len() {
        assert forall|i: int| 0 <= i && i + needle@.len() <= s@.len() implies
            #[trigger] s@.subrange(i, i + needle@.len()) != needle@ by {}
        return false;
    }
    let mut i: usize = 0;
    while i <= s.len() - n
        invariant
            nd@ == needle@,
            n == nd@.len(),
            n <= s@.len(),
            i <= s@.len() - n + 1,
            s@.len() == s.len(),
            forall|k: int| 0 <= k < i ==> #[trigger] s@.subrange(k, k + needle@.len()) != needle@,
        decreases s@.len() - i,
    {
        let mut j: usize = 0;
        let mut same = true;
        while j < n
            invariant
                j <= n,
                i + n <= s@.len(),
                s@.len() <= usize::MAX,
                n == nd@.len(),
                same == (forall|t: int| 0 <= t < j ==> s@[i + t] == nd@[t]),
            decreases n - j,
        {
            if s[i + j] != nd[j] {
                same = false;
            }
            j = j + 1;
        }
        if same {
            assert(s@.subrange(i as int, i + n) =~= needle@);
            return true;
        }
        assert(s@.subrange(i as int, i + n) != needle@) by {
            let t = choose|t: int| 0 <= t < n && s@[i + t] != nd@[t];
            assert(s@.subrange(i as int, i + n)[t] == s@[i + t]);
        }
        i = i + 1;
    }
    false
}

/// Whether the characters spell `name`.
fn is_name(chars: &Vec<char>, name: &str) -> (r: bool)
    ensures
        r == (chars@ == name@),
{
    let n = crate::text::chars_of(name);
    crate::path::components::chars_equal(chars, &n)
}

impl ShellType {
    /// The shell named by `s`, ignoring ASCII case: `bash`/`sh`, `zsh`,
    /// `fish`, or `powershell`/`pwsh`/`ps`.
    ///
    /// Any other name is refused with a validation error that quotes it and
    /// lists the supported shells.
    pub fn from_string(s: &str) -> (r: Result<Self, Error>)
        ensures
            match shell_named(ascii_lower(s@)) {
                Some(sh) => r == Ok::<ShellType, Error>(sh),
                None => r matches Err(Error::Validation { field, message }) && field@ == "shell"@
                    && message@ == "unknown shell type '"@ + s@ + "': supported shells are bash, zsh, fish, powershell"@,
            },
    {
        proof {
            reveal_strlit("bash");
            reveal_strlit("sh");
            reveal_strlit("zsh");
            reveal_strlit("fish");
            reveal_strlit("powershell");
            reveal_strlit("pwsh");
            reveal_strlit("ps");
        }
        let chars = crate::text::chars_of(s);
        let mut lower: Vec<char> = Vec::new();
        let mut i: usize = 0;
        while i < chars.len()
            invariant
                i <= chars@.len(),
                chars@ == s@,
                lower@ == ascii_lower(s@.take(i as int)),
            decreases chars@.len() - i,
        {
            let c = chars[i];
            let l = if 'A' <= c && c <= 'Z' { ((c as u32) + 32) as u8 as char } else { c };
            assert(l == ascii_lower_char(c)) by {
                if 'A' <= c && c <= 'Z' {
                    assert(((c as u32) + 32) as u8 as char == ((c as u32) + 32) as char);
                }
            }
            lower.push(l);
            assert(lower@ =~= ascii_lower(s@.take(i + 1)));
            i = i + 1;
        }
        assert(s@.take(chars@.len() as int) =~= s@);
        if is_name(&lower, "bash") || is_name(&lower, "sh") {
            Ok(ShellType::Bash)
        } else if is_name(&lower, "zsh") {
            Ok(ShellType::Zsh)
        } else if is_name(&lower, "fish") {
            Ok(ShellType::Fish)
        } else if is_name(&lower, "powershell") || is_name(&lower, "pwsh") || is_name(&lower, "ps") {
            Ok(ShellType::PowerShell)
        } else {
            let mut message = owned("unknown shell type '");
            message.push_str(s);
            message.push_str("': supported shells are bash, zsh, fish, powershell");
            Err(Error::Validation { field: owned("shell"), message })
        }
    }

    /// The shell the environment points to, given which of `ZSH_VERSION`,
    /// `FISH_VERSION` and `PSModulePath` are set and the value of `SHELL`.
    pub fn detect_from(zsh_version: bool, fish_version: bool, ps_module_path: bool, shell: Option<&str>) -> (r: Self)
        ensures
            r == spec_detect(zsh_version, fish_version, ps_module_path,
                match shell { Some(p) => Some(p@), None => None }),
    {
        if zsh_version {
            return ShellType::Zsh;
        }
        if fish_version {
            return ShellType::Fish;
        }
        if ps_module_path {
            return ShellType::PowerShell;
        }
        match shell {
            Some(p) => {
                let chars = crate::text::chars_of(p);
                if contains_chars(&chars, "zsh") {
                    ShellType::Zsh
                } else if contains_chars(&chars, "fish") {
                    ShellType::Fish
                } else if contains_chars(&chars, "pwsh") || contains_chars(&chars, "powershell") {
                    ShellType::PowerShell
                } else {
                    ShellType::Bash
                }
            },
            None => ShellType::Bash,
        }
    }

    /// The export statement that sets `var` to `value` in this shell.
    pub open spec fn spec_export(self, var: Seq<char>, value: Seq<char>) -> Seq<char> {
        match self {
            ShellType::Bash | ShellType::Zsh => "export "@ + var + "="@ + value,
            ShellType::Fish => "set -x "@ + var + " "@ + value,
            ShellType::PowerShell => "$env:"@ + var + "=\""@ + value + "\""@,
        }
    }

    /// Formats an export statement: `export VAR=value` (bash, zsh),
    /// `set -x VAR value` (fish) or `$env:VAR="value"` (PowerShell).
    pub fn format_export(&self, var: &str, value: &str) -> (s: String)
        ensures
            s@ == self.spec_export(var@, value@),
    {
        match self {
            ShellType::Bash | ShellType::Zsh => {
                let mut s = owned("export ");
                s.push_str(var);
                s.push_str("=");
                s.push_str(value);
                s
            },
            ShellType::Fish => {
                let mut s = owned("set -x ");
                s.push_str(var);
                s.push_str(" ");
                s.push_str(value);
                s
            },
            ShellType::PowerShell => {
                let mut s = owned("$env:");
                s.push_str(var);
                s.push_str("=\"");
                s.push_str(value);
                s.push_str("\"");
                s
            },
        }
    }
}

} // verus!
