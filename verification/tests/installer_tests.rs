use base64::Engine;
use gemma_chat::installer::{
    cleanup_command, encode_powershell_command, encode_utf16le, ps_quote, shortcut_script,
    uninstall_command, uninstaller_registry_values, RegistryValue,
};

#[test]
fn ps_quote_doubles_single_quotes() {
    assert_eq!(ps_quote("C:\\Users\\o'brien\\'x'"), "C:\\Users\\o''brien\\''x''");
    assert_eq!(ps_quote("plain"), "plain");
}

#[test]
fn shortcut_script_text() {
    let s = shortcut_script("C:\\D\\AI.lnk", "C:\\P\\it's\\AI.exe", "C:\\P");
    assert_eq!(
        s,
        "$shell = New-Object -ComObject WScript.Shell\n\
         $shortcut = $shell.CreateShortcut('C:\\D\\AI.lnk')\n\
         $shortcut.TargetPath = 'C:\\P\\it''s\\AI.exe'\n\
         $shortcut.WorkingDirectory = 'C:\\P'\n\
         $shortcut.IconLocation = 'C:\\P\\it''s\\AI.exe,0'\n\
         $shortcut.Save()\n"
    );
}

#[test]
fn utf16le_matches_std() {
    for s in ["", "A", "hé", "€", "😀x", "$shell = 1\n"] {
        let expected: Vec<u8> = s.encode_utf16().flat_map(|u| u.to_le_bytes()).collect();
        assert_eq!(encode_utf16le(s), expected);
    }
    assert_eq!(encode_utf16le("😀"), vec![0x3D, 0xD8, 0x00, 0xDE]);
}

#[test]
fn powershell_command_is_base64_of_utf16le() {
    assert_eq!(encode_powershell_command("hi"), "aABpAA==");
    assert_eq!(encode_powershell_command(""), "");
    let script = "Write-Host 'ok'\n";
    let bytes: Vec<u8> = script.encode_utf16().flat_map(|u| u.to_le_bytes()).collect();
    assert_eq!(encode_powershell_command(script), base64::engine::general_purpose::STANDARD.encode(bytes));
}

#[test]
fn uninstall_and_cleanup_commands() {
    assert_eq!(uninstall_command("C:\\A\\Uninstall AI.exe"), "\"C:\\A\\Uninstall AI.exe\" --uninstall");
    assert_eq!(cleanup_command("C:\\A"), "timeout /t 1 /nobreak > nul & rmdir /s /q \"C:\\A\"");
}

#[test]
fn registry_values_in_order() {
    let v = uninstaller_registry_values("C:\\A", "C:\\A\\AI.exe", "C:\\A\\Uninstall AI.exe", 5 * 1024 + 3);
    let uninstall = "\"C:\\A\\Uninstall AI.exe\" --uninstall".to_string();
    let t = |s: &str| RegistryValue::Text(s.to_string());
    let expected = vec![
        ("DisplayName".to_string(), t("AI")),
        ("DisplayVersion".to_string(), t("1.0.6")),
        ("Publisher".to_string(), t("xocat")),
        ("InstallLocation".to_string(), t("C:\\A")),
        ("DisplayIcon".to_string(), t("C:\\A\\AI.exe")),
        ("UninstallString".to_string(), RegistryValue::Text(uninstall.clone())),
        ("QuietUninstallString".to_string(), RegistryValue::Text(uninstall)),
        ("NoModify".to_string(), RegistryValue::Number(1)),
        ("NoRepair".to_string(), RegistryValue::Number(1)),
        ("EstimatedSize".to_string(), RegistryValue::Number(5)),
    ];
    assert_eq!(v, expected);
}

#[test]
fn quoted_paths_read_back() {
    for p in ["C:\\a'b", "''", "x", "", "'start", "end'"] {
        let quoted = ps_quote(p);
        assert_eq!(quoted.replace("''", "'"), p);
        assert_eq!(quoted.matches('\'').count(), 2 * p.matches('\'').count());
    }
}
