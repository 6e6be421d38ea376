//! What the Windows installer hands to other programs: the PowerShell script
//! that makes a shortcut and its encoded form, the commands that uninstall
//! the app, and the values of its uninstall registry key.

use base64::Engine;
use vstd::prelude::*;
use crate::text;

verus! {

broadcast use vstd::string::group_string_axioms;

/// The name of the installed app.
pub const APP_NAME: &'static str = "AI";

/// The version of the installed app.
pub const APP_VERSION: &'static str = "1.0.6";

/// The file name of the installed app.
pub const APP_EXE_NAME: &'static str = "AI.exe";

/// The file name of the installed uninstaller.
pub const UNINSTALL_EXE_NAME: &'static str = "Uninstall AI.exe";

/// The publisher shown by Windows.
pub const PUBLISHER: &'static str = "xocat";

/// The registry key, under the current user, that lists the app as
/// installed.
pub const REGISTRY_KEY: &'static str = "Software\\Microsoft\\Windows\\CurrentVersion\\Uninstall\\AI";

/// `s` quoted for a single-quoted PowerShell string: each `'` doubled.
pub open spec fn ps_quoted(s: Seq<char>) -> Seq<char>
    decreases s.len(),
{
    if s.len() == 0 {
        Seq::empty()
    } else {
        ps_quoted(s.drop_last()) + if s.last() == '\'' {
            seq!['\'', '\'']
        } else {
            seq![s.last()]
        }
    }
}

/// The text PowerShell reads from the body of a single-quoted string, from
/// the front: `''` stands for one `'`, any other character for itself.
pub open spec fn ps_unquoted(q: Seq<char>) -> Seq<char>
    decreases q.len(),
{
    if q.len() == 0 {
        Seq::empty()
    } else if q.len() >= 2 && q[0] == '\'' && q[1] == '\'' {
        seq!['\''] + ps_unquoted(q.skip(2))
    } else {
        seq![q[0]] + ps_unquoted(q.drop_first())
    }
}

/// How one character is quoted.
pub open spec fn ps_quoted_char(c: char) -> Seq<char> {
    if c == '\'' {
        seq!['\'', '\'']
    } else {
        seq![c]
    }
}

proof fn lemma_ps_quoted_front(s: Seq<char>)
    requires
        s.len() > 0,
    ensures
        ps_quoted(s) == ps_quoted_char(s[0]) + ps_quoted(s.drop_first()),
    decreases s.len(),
{
    if s.len() > 1 {
        lemma_ps_quoted_front(s.drop_last());
        assert(s.drop_last().drop_first() =~= s.drop_first().drop_last());
        assert(s.drop_first().last() == s.last());
        assert(s.drop_last()[0] == s[0]);
    } else {
        assert(s.drop_first() =~= Seq::<char>::empty());
        assert(s.drop_last() =~= Seq::<char>::empty());
    }
}

/// Whether `q` can stand between the quotes of a single-quoted PowerShell
/// string: every `'` in it is one of a pair `''`, so none ends the string.
pub open spec fn ps_well_quoted(q: Seq<char>) -> bool
    decreases q.len(),
{
    if q.len() == 0 {
        true
    } else if q[0] == '\'' {
        q.len() >= 2 && q[1] == '\'' && ps_well_quoted(q.skip(2))
    } else {
        ps_well_quoted(q.drop_first())
    }
}

/// A quoted path reads back, in PowerShell, as the path: quoting loses
/// nothing and a quote in the path cannot end the string.
pub proof fn lemma_ps_quote_reads_back(s: Seq<char>)
    ensures
        ps_well_quoted(ps_quoted(s)),
        ps_unquoted(ps_quoted(s)) == s,
    decreases s.len(),
{
    if s.len() == 0 {
        assert(ps_quoted(s) =~= Seq::<char>::empty());
    } else {
        lemma_ps_quoted_front(s);
        lemma_ps_quote_reads_back(s.drop_first());
        let rest = ps_quoted(s.drop_first());
        let q = ps_quoted(s);
        if s[0] == '\'' {
            assert(q.skip(2) =~= rest);
        } else {
            assert(q.drop_first() =~= rest);
        }
        assert(s =~= seq![s[0]] + s.drop_first());
    }
}

/// Quotes a path for a single-quoted PowerShell string.
pub fn ps_quote(path: &str) -> (r: String)
    ensures
        r@ == ps_quoted(path@),
{
    let v = text::chars_of(path);
    let mut out: Vec<char> = Vec::new();
    let mut i: usize = 0;
    while i < v.len()
        invariant
            i <= v.len(),
            out@ == ps_quoted(v@.take(i as int)),
        decreases v.len() - i,
    {
        let ghost before = out@;
        if v[i] == '\'' {
            out.push('\'');
            out.push('\'');
        } else {
            out.push(v[i]);
        }
        assert(v@.take(i + 1).drop_last() =~= v@.take(i as int));
        i += 1;
        assert(out@ =~= ps_quoted(v@.take(i as int)));
    }
    assert(v@.take(v.len() as int) =~= v@);
    text::string_of(&out)
}

/// The PowerShell script that makes a shortcut at `shortcut` to `target`,
/// started in `working_dir`, with the target's icon.
pub open spec fn shortcut_script_text(shortcut: Seq<char>, target: Seq<char>, working_dir: Seq<char>) -> Seq<char> {
    "$shell = New-Object -ComObject WScript.Shell\n$shortcut = $shell.CreateShortcut('"@
        + ps_quoted(shortcut) + "')\n$shortcut.TargetPath = '"@ + ps_quoted(target)
        + "'\n$shortcut.WorkingDirectory = '"@ + ps_quoted(working_dir)
        + "'\n$shortcut.IconLocation = '"@ + ps_quoted(target) + ",0'\n$shortcut.Save()\n"@
}

/// The shortcut script hands PowerShell each path as a single-quoted string
/// that reads back as the path: the script is the fixed text with four
/// quoted bodies, none holding a lone `'`, which read as the shortcut path,
/// the target, the working directory and the target again.
pub proof fn lemma_shortcut_script_reads_back(shortcut: Seq<char>, target: Seq<char>, working_dir: Seq<char>)
    ensures
        exists|q1: Seq<char>, q2: Seq<char>, q3: Seq<char>, q4: Seq<char>|
            #![trigger ps_unquoted(q1), ps_unquoted(q2), ps_unquoted(q3), ps_unquoted(q4)]
            {
                &&& ps_well_quoted(q1) && ps_unquoted(q1) == shortcut
                &&& ps_well_quoted(q2) && ps_unquoted(q2) == target
                &&& ps_well_quoted(q3) && ps_unquoted(q3) == working_dir
                &&& ps_well_quoted(q4) && ps_unquoted(q4) == target
                &&& shortcut_script_text(shortcut, target, working_dir)
                    == "$shell = New-Object -ComObject WScript.Shell\n$shortcut = $shell.CreateShortcut('"@
                    + q1 + "')\n$shortcut.TargetPath = '"@ + q2
                    + "'\n$shortcut.WorkingDirectory = '"@ + q3
                    + "'\n$shortcut.IconLocation = '"@ + q4 + ",0'\n$shortcut.Save()\n"@
            },
{
    lemma_ps_quote_reads_back(shortcut);
    lemma_ps_quote_reads_back(target);
    lemma_ps_quote_reads_back(working_dir);
    let q1 = ps_quoted(shortcut);
    let q2 = ps_quoted(target);
    let q3 = ps_quoted(working_dir);
    assert(ps_unquoted(q1) == shortcut && ps_unquoted(q2) == target && ps_unquoted(q3)
        == working_dir);
}

/// Writes the PowerShell script that makes a shortcut.
pub fn shortcut_script(shortcut: &str, target: &str, working_dir: &str) -> (r: String)
    ensures
        r@ == shortcut_script_text(shortcut@, target@, working_dir@),
{
    let mut s = "$shell = New-Object -ComObject WScript.Shell\n$shortcut = $shell.CreateShortcut('".to_string();
    s.append(ps_quote(shortcut).as_str());
    s.append("')\n$shortcut.TargetPath = '");
    s.append(ps_quote(target).as_str());
    s.append("'\n$shortcut.WorkingDirectory = '");
    s.append(ps_quote(working_dir).as_str());
    s.append("'\n$shortcut.IconLocation = '");
    s.append(ps_quote(target).as_str());
    s.append(",0'\n$shortcut.Save()\n");
    s
}

/// The UTF-16 code units of a character.
pub open spec fn utf16_units(c: char) -> Seq<u16> {
    let u = c as u32;
    if u < 0x10000 {
        seq![u as u16]
    } else {
        seq![(0xD800 + (u - 0x10000) / 1024) as u16, (0xDC00 + (u - 0x10000) % 1024) as u16]
    }
}

/// The bytes of a code unit, low byte first.
pub open spec fn le_bytes(unit: u16) -> Seq<u8> {
    seq![(unit % 256) as u8, (unit / 256) as u8]
}

/// The bytes of the code units of a character, each low byte first.
pub open spec fn char_utf16le(c: char) -> Seq<u8> {
    let units = utf16_units(c);
    if units.len() == 1 {
        le_bytes(units[0])
    } else {
        le_bytes(units[0]) + le_bytes(units[1])
    }
}

/// A text in UTF-16, little endian (`str::encode_utf16` with
/// `u16::to_le_bytes`).
pub open spec fn utf16le(s: Seq<char>) -> Seq<u8>
    decreases s.len(),
{
    if s.len() == 0 {
        Seq::empty()
    } else {
        utf16le(s.drop_last()) + char_utf16le(s.last())
    }
}

fn push_unit(out: &mut Vec<u8>, unit: u32)
    requires
        unit < 0x10000,
    ensures
        final(out)@ == old(out)@ + le_bytes(unit as u16),
{
    out.push((unit % 256) as u8);
    out.push((unit / 256) as u8);
    assert(final(out)@ =~= old(out)@ + le_bytes(unit as u16));
}

/// Encodes a text in UTF-16, little endian.
pub fn encode_utf16le(s: &str) -> (r: Vec<u8>)
    ensures
        r@ == utf16le(s@),
{
    let v = text::chars_of(s);
    let mut out: Vec<u8> = Vec::new();
    let mut i: usize = 0;
    while i < v.len()
        invariant
            i <= v.len(),
            out@ == utf16le(v@.take(i as int)),
        decreases v.len() - i,
    {
        let c: char = v[i];
        let u = c as u32;
        proof {
            vstd::utf8::char_is_scalar(c);
        }
        if u < 0x10000 {
            push_unit(&mut out, u);
        } else {
            push_unit(&mut out, 0xD800 + (u - 0x10000) / 1024);
            push_unit(&mut out, 0xDC00 + (u - 0x10000) % 1024);
        }
        assert(v@.take(i + 1).drop_last() =~= v@.take(i as int));
        i += 1;
        assert(out@ =~= utf16le(v@.take(i as int)));
    }
    assert(v@.take(v.len() as int) =~= v@);
    out
}

/// The character of a six-bit value in the standard base64 alphabet
/// (RFC 4648): `A`..`Z`, `a`..`z`, `0`..`9`, `+`, `/`.
pub open spec fn base64_char(v: int) -> char {
    if v < 26 {
        (65 + v) as char
    } else if v < 52 {
        (97 + v - 26) as char
    } else if v < 62 {
        (48 + v - 52) as char
    } else if v == 62 {
        '+'
    } else {
        '/'
    }
}

/// The standard base64 encoding of `b` with `=` padding (RFC 4648): each
/// group of three bytes becomes four characters; a last group of one or two
/// bytes becomes two or three characters and the padding.
pub open spec fn base64_standard(b: Seq<u8>) -> Seq<char>
    decreases b.len(),
{
    if b.len() == 0 {
        Seq::empty()
    } else {
        let x = b[0] as int;
        if b.len() == 1 {
            seq![base64_char(x / 4), base64_char((x % 4) * 16), '=', '=']
        } else {
            let y = b[1] as int;
            if b.len() == 2 {
                seq![
                    base64_char(x / 4),
                    base64_char((x % 4) * 16 + y / 16),
                    base64_char((y % 16) * 4),
                    '=',
                ]
            } else {
                let z = b[2] as int;
                seq![
                    base64_char(x / 4),
                    base64_char((x % 4) * 16 + y / 16),
                    base64_char((y % 16) * 4 + z / 64),
                    base64_char(z % 64),
                ] + base64_standard(b.skip(3))
            }
        }
    }
}

/// Calls `base64::engine::general_purpose::STANDARD.encode`, which encodes
/// with the standard alphabet and `=` padding. It panics when the length of
/// its output overflows a `usize`; `requires` rules that out.
#[verifier::external_body]
fn base64_encode(bytes: &[u8]) -> (r: String)
    requires
        bytes@.len() <= usize::MAX / 2,
    ensures
        r@ == base64_standard(bytes@),
{
    base64::engine::general_purpose::STANDARD.encode(bytes)
}

/// The `-EncodedCommand` argument of PowerShell for a script: the script in
/// UTF-16 little endian, in base64.
pub fn encode_powershell_command(script: &str) -> (r: String)
    requires
        utf16le(script@).len() <= usize::MAX / 2,
    ensures
        r@ == base64_standard(utf16le(script@)),
{
    let bytes = encode_utf16le(script);
    base64_encode(bytes.as_slice())
}

/// The command Windows runs to uninstall the app.
pub fn uninstall_command(uninstall_path: &str) -> (r: String)
    ensures
        r@ == "\""@ + uninstall_path@ + "\" --uninstall"@,
{
    let mut s = "\"".to_string();
    s.append(uninstall_path);
    s.append("\" --uninstall");
    s
}

/// The command that removes the install directory once the uninstaller has
/// exited.
pub fn cleanup_command(install_dir: &str) -> (r: String)
    ensures
        r@ == "timeout /t 1 /nobreak > nul & rmdir /s /q \""@ + install_dir@ + "\""@,
{
    let mut s = "timeout /t 1 /nobreak > nul & rmdir /s /q \"".to_string();
    s.append(install_dir);
    s.append("\"");
    s
}

/// A value of the uninstall registry key.
#[derive(Debug, Clone, PartialEq, Eq)]
pub enum RegistryValue {
    Text(String),
    Number(u32),
}

/// A [`RegistryValue`] as plain values.
pub enum RegistryValueView {
    Text(Seq<char>),
    Number(u32),
}

impl View for RegistryValue {
    type V = RegistryValueView;

    open spec fn view(&self) -> RegistryValueView {
        match self {
            RegistryValue::Text(s) => RegistryValueView::Text(s@),
            RegistryValue::Number(n) => RegistryValueView::Number(*n),
        }
    }
}

/// The named values of a list, as plain values.
pub open spec fn registry_view(values: Seq<(String, RegistryValue)>) -> Seq<(Seq<char>, RegistryValueView)> {
    values.map_values(|e: (String, RegistryValue)| (e.0@, e.1@))
}

/// The size of the app in KiB, as the registry holds it.
pub open spec fn estimated_size_kib(payload_len: usize) -> u32 {
    (payload_len / 1024) as u32
}

/// The values of the uninstall registry key, in the order they are set.
pub open spec fn uninstaller_values(install_dir: Seq<char>, app_path: Seq<char>, uninstall_path: Seq<char>, payload_len: usize) -> Seq<(Seq<char>, RegistryValueView)> {
    let uninstall = "\""@ + uninstall_path + "\" --uninstall"@;
    seq![
        ("DisplayName"@, RegistryValueView::Text(APP_NAME@)),
        ("DisplayVersion"@, RegistryValueView::Text(APP_VERSION@)),
        ("Publisher"@, RegistryValueView::Text(PUBLISHER@)),
        ("InstallLocation"@, RegistryValueView::Text(install_dir)),
        ("DisplayIcon"@, RegistryValueView::Text(app_path)),
        ("UninstallString"@, RegistryValueView::Text(uninstall)),
        ("QuietUninstallString"@, RegistryValueView::Text(uninstall)),
        ("NoModify"@, RegistryValueView::Number(1)),
        ("NoRepair"@, RegistryValueView::Number(1)),
        ("EstimatedSize"@, RegistryValueView::Number(estimated_size_kib(payload_len))),
    ]
}

fn text_value(name: &str, value: &str) -> (r: (String, RegistryValue))
    ensures
        r.0@ == name@,
        r.1@ == RegistryValueView::Text(value@),
{
    (name.to_string(), RegistryValue::Text(value.to_string()))
}

fn number_value(name: &str, value: u32) -> (r: (String, RegistryValue))
    ensures
        r.0@ == name@,
        r.1@ == RegistryValueView::Number(value),
{
    (name.to_string(), RegistryValue::Number(value))
}

/// The values the installer sets under its uninstall registry key, in
/// order: the app's name, version and publisher, where it lives, how to
/// uninstall it, and its size in KiB.
pub fn uninstaller_registry_values(install_dir: &str, app_path: &str, uninstall_path: &str, payload_len: usize) -> (r: Vec<(String, RegistryValue)>)
    ensures
        registry_view(r@) == uninstaller_values(install_dir@, app_path@, uninstall_path@, payload_len),
{
    let uninstall = uninstall_command(uninstall_path);
    let mut r: Vec<(String, RegistryValue)> = Vec::new();
    r.push(text_value("DisplayName", APP_NAME));
    r.push(text_value("DisplayVersion", APP_VERSION));
    r.push(text_value("Publisher", PUBLISHER));
    r.push(text_value("InstallLocation", install_dir));
    r.push(text_value("DisplayIcon", app_path));
    r.push(text_value("UninstallString", uninstall.as_str()));
    r.push(text_value("QuietUninstallString", uninstall.as_str()));
    r.push(number_value("NoModify", 1));
    r.push(number_value("NoRepair", 1));
    r.push(number_value("EstimatedSize", (payload_len / 1024) as u32));
    assert(registry_view(r@) =~= uninstaller_values(install_dir@, app_path@, uninstall_path@, payload_len));
    r
}

} // verus!
