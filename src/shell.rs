//! Shell init scripts: a shell function that runs the picker and changes to
//! the directory it prints.
use vstd::prelude::*;

verus! {

/// What follows the function name in the zsh and bash scripts.
pub open spec fn posix_body() -> Seq<char> {
    "() {\n    local result\n    result=\"$(\\command prj \"$@\" 2>/dev/tty)\"\n    if [[ -n \"$result\" ]]; then\n        \\builtin cd -- \"$result\"\n    fi\n}\n"@
}

/// What follows the function name in the PowerShell script.
pub open spec fn powershell_body() -> Seq<char> {
    " {\n    $result = & prj @args 2>$null\n    if ($result) {\n        Set-Location -Path $result\n    }\n}\n"@
}

/// The zsh script defining the function `cmd`.
pub fn generate_zsh(cmd: &str) -> (r: String)
    ensures
        r@ == "function "@ + cmd@ + posix_body(),
{
    String::from_str("function ").concat(cmd).concat(
        "() {\n    local result\n    result=\"$(\\command prj \"$@\" 2>/dev/tty)\"\n    if [[ -n \"$result\" ]]; then\n        \\builtin cd -- \"$result\"\n    fi\n}\n",
    )
}

/// The bash script defining the function `cmd`.
pub fn generate_bash(cmd: &str) -> (r: String)
    ensures
        r@ == "function "@ + cmd@ + posix_body(),
{
    String::from_str("function ").concat(cmd).concat(
        "() {\n    local result\n    result=\"$(\\command prj \"$@\" 2>/dev/tty)\"\n    if [[ -n \"$result\" ]]; then\n        \\builtin cd -- \"$result\"\n    fi\n}\n",
    )
}

/// The PowerShell script defining the function `cmd`.
pub fn generate_powershell(cmd: &str) -> (r: String)
    ensures
        r@ == "function "@ + cmd@ + powershell_body(),
{
    String::from_str("function ").concat(cmd).concat(
        " {\n    $result = & prj @args 2>$null\n    if ($result) {\n        Set-Location -Path $result\n    }\n}\n",
    )
}

fn str_eq(a: &str, b: &str) -> (r: bool)
    ensures
        r == (a@ == b@),
{
    String::from_str(a) == String::from_str(b)
}

/// The init script for `shell` defining the function `cmd`; shells other
/// than zsh, bash, powershell and pwsh are refused with a message.
pub fn generate_init(shell: &str, cmd: &str) -> (r: Result<String, String>)
    ensures
        shell@ == "zsh"@ || shell@ == "bash"@ ==> (r matches Ok(s) && s@ == "function "@ + cmd@ + posix_body()),
        shell@ == "powershell"@ || shell@ == "pwsh"@ ==> (r matches Ok(s) && s@ == "function "@ + cmd@ + powershell_body()),
        !(shell@ == "zsh"@ || shell@ == "bash"@ || shell@ == "powershell"@ || shell@ == "pwsh"@) ==> (r matches Err(m) && m@ == "unsupported shell: "@ + shell@ + " (supported: zsh, bash, powershell)"@),
{
    proof {
        reveal_strlit("zsh");
        reveal_strlit("bash");
        reveal_strlit("powershell");
        reveal_strlit("pwsh");
        assert("powershell"@.len() == 10 && "zsh"@.len() == 3 && "bash"@.len() == 4 && "pwsh"@.len() == 4);
        assert("bash"@[0] != "pwsh"@[0]);
        assert("pwsh"@ != "bash"@);
    }
    if str_eq(shell, "zsh") {
        Ok(generate_zsh(cmd))
    } else if str_eq(shell, "bash") {
        Ok(generate_bash(cmd))
    } else if str_eq(shell, "powershell") || str_eq(shell, "pwsh") {
        Ok(generate_powershell(cmd))
    } else {
        Err(String::from_str("unsupported shell: ").concat(shell).concat(" (supported: zsh, bash, powershell)"))
    }
}

} // verus!
