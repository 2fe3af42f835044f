use open_with_codex_app::cli::{parse_command, parse_command_for, usage, Command};
use open_with_codex_app::platform::flow::{
    install_next, uninstall_next, InstallStep, Platform, UninstallStep,
};
use open_with_codex_app::platform::macos;
use open_with_codex_app::platform::macos_assets::{
    document_wflow_xml, info_plist_xml, workflow_shell_script, xml_escape,
};
use open_with_codex_app::platform::unsupported;
use open_with_codex_app::platform::windows;
use open_with_codex_app::platform::windows::PathValueKind;
use open_with_codex_app::platform::{
    app_missing_outcome, opened_outcome, output_path_lines, InstallReport,
};
use open_with_codex_app::registration::{plan_registration, RegistrationAction, RegistrationState};

fn strings(items: &[&str]) -> Vec<String> {
    items.iter().map(|s| s.to_string()).collect()
}

#[test]
fn unknown_command_is_rejected_by_the_installer() {
    let err = parse_command("open-with-codex-app", strings(&["frobnicate"])).unwrap_err();
    assert_eq!(err, "unknown command: frobnicate");
}

#[test]
fn app_without_exactly_one_directory_is_rejected() {
    let err = parse_command("codex", strings(&["app"])).unwrap_err();
    assert_eq!(err, "expected exactly one directory after 'app'");
    let err = parse_command("codex", strings(&["open", "a", "b"])).unwrap_err();
    assert_eq!(err, "expected exactly one directory after 'app'");
}

#[test]
fn command_aliases_are_recognised() {
    assert_eq!(parse_command("x", strings(&["register"])).unwrap(), Command::Install);
    assert_eq!(parse_command("x", strings(&["remove"])).unwrap(), Command::Uninstall);
    assert_eq!(parse_command("x", strings(&["unregister"])).unwrap(), Command::Uninstall);
    assert_eq!(parse_command("x", strings(&["-h"])).unwrap(), Command::Help);
    assert_eq!(parse_command("x", strings(&["--help"])).unwrap(), Command::Help);
    assert_eq!(
        parse_command("x", strings(&["open", "/p"])).unwrap(),
        Command::OpenProject { path: "/p".into() }
    );
}

#[test]
fn shim_without_arguments_forwards_nothing() {
    assert_eq!(parse_command("codex", Vec::new()).unwrap(), Command::Forward(Vec::new()));
}

#[test]
fn shim_name_is_matched_ignoring_case_and_extension() {
    assert_eq!(
        parse_command("CODEX.exe", strings(&["login"])).unwrap(),
        Command::Forward(strings(&["login"]))
    );
    assert_eq!(
        parse_command("/usr/local/bin/codex", strings(&["login"])).unwrap(),
        Command::Forward(strings(&["login"]))
    );
    assert!(parse_command("codex-cli", strings(&["login"])).is_err());
    assert!(parse_command("", strings(&["login"])).is_err());
}

#[test]
fn parse_for_either_invocation() {
    assert_eq!(parse_command_for(false, Vec::new()).unwrap(), Command::Install);
    assert_eq!(parse_command_for(true, Vec::new()).unwrap(), Command::Forward(Vec::new()));
    assert!(parse_command_for(false, strings(&["x"])).is_err());
}

#[test]
fn usage_lists_the_commands() {
    let text = usage();
    assert!(text.starts_with("Usage:\n"));
    assert!(text.contains("open-with-codex-app uninstall"));
    assert!(text.ends_with("codex app <dir>                        Open a directory in Codex app"));
}

#[test]
fn plan_installs_every_missing_piece_in_order() {
    let state = RegistrationState {
        codex_app_installed: true,
        context_menu_registered: false,
        cli_registered: false,
        cli_path_registered: false,
    };
    assert_eq!(
        plan_registration(&state),
        vec![
            RegistrationAction::RegisterContextMenu,
            RegistrationAction::InstallCliShim,
            RegistrationAction::RegisterCliPath
        ]
    );
}

#[test]
fn report_lines_carry_their_labels() {
    let mut report = InstallReport::default();
    report.installed("a");
    report.removed("b");
    report.skipped("c");
    assert_eq!(report.lines, strings(&["installed: a", "removed: b", "skipped: c"]));
}

#[test]
fn install_run_reports_each_piece() {
    let mut report = InstallReport::default();
    let mut step = InstallStep::LocateApp;
    let answers = [true, true, false, true, false, false, true];
    let mut k = 0;
    while step != InstallStep::Done {
        step = install_next(Platform::Windows, step, answers[k], &mut report);
        k += 1;
    }
    assert_eq!(
        report.lines,
        strings(&[
            "installed: stable Open with Codex app launcher",
            "installed: Open with Codex app Explorer context menu",
            "skipped: codex app command shim already registered",
            "installed: codex app command shim directory on user PATH",
        ])
    );
}

#[test]
fn install_run_stops_without_the_app() {
    let mut report = InstallReport::default();
    let step = install_next(Platform::MacOs, InstallStep::LocateApp, false, &mut report);
    assert_eq!(step, InstallStep::Done);
    assert_eq!(report.lines, strings(&["skipped: Codex app not installed"]));
}

#[test]
fn macos_install_run_uses_finder_and_shell_wording() {
    let mut report = InstallReport::default();
    let mut step = InstallStep::LocateApp;
    for answer in [true, false, true, true, true] {
        step = install_next(Platform::MacOs, step, answer, &mut report);
    }
    assert_eq!(step, InstallStep::Done);
    assert_eq!(
        report.lines,
        strings(&[
            "skipped: stable Open with Codex app launcher already exists",
            "skipped: Open with Codex app Finder service already registered",
            "installed: codex app command shim",
            "skipped: codex app command shim directory already on shell PATH",
        ])
    );
}

#[test]
fn windows_uninstall_run_keeps_the_running_directory() {
    let mut report = InstallReport::default();
    let mut step = UninstallStep::RemoveMenu;
    let answers = [true, false, true, true, true, true, false, true];
    let mut k = 0;
    while step != UninstallStep::Done {
        step = uninstall_next(Platform::Windows, step, answers[k], &mut report);
        k += 1;
    }
    assert_eq!(
        report.lines,
        strings(&[
            "removed: Open with Codex app folder context menu",
            "skipped: Open with Codex app folder background context menu",
            "removed: codex app command shim directory from user PATH",
            "removed: codex app command shim",
            "skipped: stable Open with Codex app launcher",
            "skipped: Open with Codex app helper directory because the uninstaller is running from it",
        ])
    );
}

#[test]
fn macos_uninstall_run_removes_helper_files() {
    let mut report = InstallReport::default();
    let mut step = UninstallStep::RemoveMenu;
    for answer in [false, true, true, false, true, false, true] {
        step = uninstall_next(Platform::MacOs, step, answer, &mut report);
    }
    assert_eq!(step, UninstallStep::Done);
    assert_eq!(
        report.lines,
        strings(&[
            "skipped: Open with Codex app Finder service",
            "removed: codex app command shim directory from shell profiles",
            "skipped: codex app command shim because it does not look owned by this tool",
            "removed: Open with Codex app helper files",
        ])
    );
}

#[test]
fn unsupported_platform_reports_skips() {
    let expected = strings(&["skipped: unsupported platform; only Windows and macOS are supported"]);
    assert_eq!(unsupported::install_integrations().lines, expected);
    assert_eq!(unsupported::uninstall_integrations().lines, expected);
    assert_eq!(
        unsupported::open_project("/tmp"),
        "skipped: unsupported platform; only Windows and macOS are supported"
    );
    assert_eq!(unsupported::forward_to_existing_codex(&strings(&["x"])), 1);
}

#[test]
fn outcomes_of_opening_a_project() {
    assert_eq!(opened_outcome("/p"), "opened: /p");
    assert_eq!(app_missing_outcome(), "skipped: Codex app not installed");
}

#[test]
fn search_output_lines_are_trimmed_and_blank_ones_dropped() {
    assert_eq!(
        output_path_lines("  /Applications/Codex.app \r\n\n\t\n/x\n"),
        strings(&["/Applications/Codex.app", "/x"])
    );
    assert!(output_path_lines("").is_empty());
}

#[test]
fn xml_escape_replaces_markup_characters() {
    assert_eq!(xml_escape(r#"a&b<c>d"e'f"#), "a&amp;b&lt;c&gt;d&quot;e&apos;f");
    assert_eq!(xml_escape("&amp;"), "&amp;amp;");
}

#[test]
fn workflow_document_holds_the_escaped_script() {
    let doc = document_wflow_xml("/Apps/My \"Tool\"");
    let script = xml_escape(&workflow_shell_script("/Apps/My \"Tool\""));
    assert!(doc.contains(&format!("<string>{script}</string>")));
    assert!(doc.contains("&quot;/Apps/My &quot;Tool&quot;&quot; app &quot;$item&quot;"));
    assert!(doc.starts_with("<?xml version=\"1.0\" encoding=\"UTF-8\"?>\n"));
    assert!(doc.ends_with("</plist>\n"));
}

#[test]
fn info_plist_names_the_finder_service() {
    let plist = info_plist_xml();
    assert!(plist.contains("<string>com.openai.codex.open-with-codex-app.finder-service</string>"));
    assert!(plist.contains("<string>public.folder</string>"));
}

#[test]
fn windows_path_entries_are_trimmed_and_unquoted() {
    assert_eq!(
        windows::split_windows_path(" C:\\A ;; \"C:\\B\" ;"),
        strings(&["C:\\A", "C:\\B"])
    );
}

#[test]
fn windows_paths_compare_ignoring_case_and_trailing_separators() {
    assert!(windows::path_eq_ignore_case("C:\\Tools\\", "c:\\tools"));
    assert!(windows::path_eq_ignore_case("C:\\Tools/", "C:\\TOOLS\\\\"));
    assert!(!windows::path_eq_ignore_case("C:\\Tools", "C:\\Tool"));
}

#[test]
fn windows_path_cleanup_matches_case_quotes_and_separators() {
    assert_eq!(
        windows::remove_path_entry_from_value(" \"c:\\shim\\\" ;C:\\Keep;;C:\\SHIM", "C:\\shim"),
        "C:\\Keep"
    );
    assert_eq!(windows::remove_path_entry_from_value("", "C:\\shim"), "");
}

#[test]
fn windows_prepend_then_remove_gives_the_old_path_back() {
    let old = "C:\\Tools;C:\\Windows";
    let dir = "C:\\Users\\me\\AppData\\Local\\OpenAI\\Codex\\OpenWithCodexApp\\bin";
    let new = windows::prepend_user_path_value(old, dir);
    assert_eq!(new, format!("{dir};{old}"));
    assert!(windows::user_path_contains(&new, dir));
    assert!(!windows::user_path_contains(old, dir));
    assert_eq!(windows::remove_path_entry_from_value(&new, dir), old);
    assert_eq!(windows::prepend_user_path_value("  ", dir), dir);
    assert_eq!(windows::prepend_process_path_value("C:\\x", dir), format!("{dir};C:\\x"));
}

#[test]
fn windows_user_path_after_removal_reports_no_change() {
    assert_eq!(windows::user_path_after_removal("C:\\a;C:\\b", "C:\\c"), None);
    assert_eq!(
        windows::user_path_after_removal("C:\\a;C:\\c", "C:\\C\\"),
        Some(String::from("C:\\a"))
    );
}

#[test]
fn windows_registry_strings_are_utf16_with_terminator() {
    assert_eq!(windows::encode_registry_string("A"), vec![0x41, 0, 0, 0]);
    assert_eq!(windows::encode_registry_string(""), vec![0, 0]);
    assert_eq!(
        windows::encode_registry_string("é\u{1F600}"),
        vec![0xe9, 0, 0x3d, 0xd8, 0x00, 0xde, 0, 0]
    );
}

#[test]
fn windows_paths_are_built_with_backslashes() {
    assert_eq!(
        windows::integration_root("C:\\L\\"),
        "C:\\L\\OpenAI\\Codex\\OpenWithCodexApp"
    );
    assert_eq!(
        windows::stable_launcher_path("C:\\L", "open-with-codex-app.exe"),
        "C:\\L\\OpenAI\\Codex\\OpenWithCodexApp\\open-with-codex-app.exe"
    );
    assert_eq!(
        windows::cli_shim_dir_for_local_app_data("C:"),
        "C:OpenAI\\Codex\\OpenWithCodexApp\\bin"
    );
    assert_eq!(windows::windows_join_name("", "x"), "x");
    assert_eq!(
        windows::system_powershell(None),
        "C:\\Windows\\System32\\WindowsPowerShell\\v1.0\\powershell.exe"
    );
    assert_eq!(windows::windows_apps_root(Some("D:\\PF")), "D:\\PF\\WindowsApps");
    assert_eq!(
        windows::app_executable_candidates("C:\\P"),
        strings(&["C:\\P\\app\\ChatGPT.exe", "C:\\P\\app\\Codex.exe"])
    );
    assert_eq!(
        windows::windows_app_execution_alias_candidates("C:\\L"),
        strings(&[
            "C:\\L\\Microsoft\\WindowsApps\\ChatGPT.exe",
            "C:\\L\\Microsoft\\WindowsApps\\Codex.exe"
        ])
    );
}

#[test]
fn windows_package_names_and_containment() {
    assert!(windows::is_codex_package_name("OpenAI.Codex_1.2.3_x64__abc"));
    assert!(!windows::is_codex_package_name("OpenAI.CodexX"));
    assert!(windows::path_is_inside("C:\\Root\\OpenWithCodexApp\\bin\\codex.exe", "c:\\root\\"));
    assert!(!windows::path_is_inside("C:\\Other\\x.exe", "C:\\Root"));
}

#[test]
fn windows_forward_target_skips_own_directory_and_executable() {
    let probes = vec![
        windows::PathDirProbe {
            dir: "C:\\Shim".to_string(),
            exe_path: "C:\\Shim\\codex.exe".to_string(),
            cmd_path: "C:\\Shim\\codex.cmd".to_string(),
            bat_path: "C:\\Shim\\codex.bat".to_string(),
            exe_is_file: true,
            cmd_is_file: false,
            bat_is_file: false,
        },
        windows::PathDirProbe {
            dir: "C:\\Empty".to_string(),
            exe_path: "C:\\Empty\\codex.exe".to_string(),
            cmd_path: "C:\\Empty\\codex.cmd".to_string(),
            bat_path: "C:\\Empty\\codex.bat".to_string(),
            exe_is_file: false,
            cmd_is_file: false,
            bat_is_file: false,
        },
        windows::PathDirProbe {
            dir: "C:\\Npm".to_string(),
            exe_path: "C:\\Npm\\codex.exe".to_string(),
            cmd_path: "C:\\Npm\\codex.cmd".to_string(),
            bat_path: "C:\\Npm\\codex.bat".to_string(),
            exe_is_file: false,
            cmd_is_file: true,
            bat_is_file: true,
        },
    ];
    let target = windows::find_forward_target(Some("C:\\shim\\codex.exe"), Some("c:\\shim"), &probes);
    assert_eq!(target, Some(windows::ForwardTarget::Batch("C:\\Npm\\codex.cmd".to_string())));
    assert_eq!(target.unwrap().path(), "C:\\Npm\\codex.cmd");
    assert_eq!(windows::find_forward_target(None, None, &Vec::new()), None);
    let own = windows::find_forward_target(Some("C:\\Shim\\codex.exe"), None, &probes[..1].to_vec());
    assert_eq!(own, None);
}

#[test]
fn windows_helper_file_removal_spares_the_running_executable() {
    assert!(windows::should_remove_file(true, Some("C:\\a\\x.exe"), "C:\\a\\y.exe"));
    assert!(!windows::should_remove_file(true, Some("C:\\A\\Y.EXE"), "C:\\a\\y.exe"));
    assert!(!windows::should_remove_file(false, None, "C:\\a\\y.exe"));
    assert!(windows::should_remove_file(true, None, "C:\\a\\y.exe"));
}

#[test]
fn windows_path_value_kind_is_kept_when_it_is_a_string_kind() {
    assert_eq!(windows::path_value_kind(Some(PathValueKind::String)), PathValueKind::String);
    assert_eq!(
        windows::path_value_kind(Some(PathValueKind::ExpandString)),
        PathValueKind::ExpandString
    );
    assert_eq!(windows::path_value_kind(Some(PathValueKind::Other)), PathValueKind::ExpandString);
    assert_eq!(windows::path_value_kind(None), PathValueKind::ExpandString);
}

#[test]
fn macos_paths_are_built_under_home() {
    assert_eq!(
        macos::integration_root("/Users/me"),
        "/Users/me/Library/Application Support/OpenAI/Codex/OpenWithCodexApp"
    );
    assert_eq!(
        macos::stable_launcher_path("/Users/me/", "open-with-codex-app"),
        "/Users/me/Library/Application Support/OpenAI/Codex/OpenWithCodexApp/open-with-codex-app"
    );
    assert_eq!(macos::cli_shim_path("/Users/me"), "/Users/me/.codex/bin/codex");
    assert_eq!(macos::cli_shim_dir("/Users/me"), "/Users/me/.codex/bin");
    assert_eq!(
        macos::finder_workflow_path("/Users/me"),
        "/Users/me/Library/Services/Open with Codex app.workflow"
    );
    let (contents, plist, wflow) = macos::finder_workflow_files("/w.workflow");
    assert_eq!(contents, "/w.workflow/Contents");
    assert_eq!(plist, "/w.workflow/Contents/Info.plist");
    assert_eq!(wflow, "/w.workflow/Contents/document.wflow");
    assert_eq!(
        macos::shell_profiles("/Users/me"),
        strings(&["/Users/me/.zshrc", "/Users/me/.bash_profile"])
    );
    assert_eq!(
        macos::find_standard_codex_bundle_candidates(Some("/Users/me")),
        strings(&[
            "/Applications/Codex.app",
            "/Applications/OpenAI Codex.app",
            "/Users/me/Applications/Codex.app",
            "/Users/me/Applications/OpenAI Codex.app"
        ])
    );
    assert_eq!(macos::find_standard_codex_bundle_candidates(None).len(), 2);
}

#[test]
fn macos_paths_compare_by_components() {
    assert!(macos::unix_paths_equal("/a//b/./c/", "/a/b/c"));
    assert!(!macos::unix_paths_equal("/a/b", "a/b"));
    assert!(macos::unix_paths_equal("./a", "./a/"));
    assert!(!macos::unix_paths_equal("./a", "a"));
    assert!(macos::unix_path_has_base("/root/dir/exe", "/root/dir/"));
    assert!(!macos::unix_path_has_base("/root/directory/exe", "/root/dir"));
}

#[test]
fn macos_profile_block_is_added_once_and_removed_again() {
    let dir = "/Users/me/.codex/bin";
    let block = macos::profile_path_block(dir);
    assert_eq!(
        block,
        "# Added by Open with Codex app\nexport PATH=\"/Users/me/.codex/bin:$PATH\""
    );
    let content = "alias ll='ls -l'";
    let added = macos::profile_content_with_block(content, &block).unwrap();
    assert_eq!(added, format!("{content}\n{block}\n"));
    assert_eq!(macos::profile_content_with_block(&added, &block), None);
    assert_eq!(macos::remove_profile_path_block(&added, dir), format!("{content}\n"));
    assert_eq!(macos::remove_profile_path_block(content, dir), content);
    assert_eq!(
        macos::profile_content_with_block("", &block).unwrap(),
        format!("{block}\n")
    );
}

#[test]
fn macos_shell_path_registration_is_seen_on_path_or_in_profiles() {
    let dir = "/Users/me/.codex/bin";
    let block = macos::profile_path_block(dir);
    assert!(macos::shell_path_registered(&strings(&["/usr/bin", "/Users/me/.codex/bin/"]), dir, &Vec::new()));
    assert!(macos::shell_path_registered(&Vec::new(), dir, &vec![format!("x\n{block}\n")]));
    assert!(!macos::shell_path_registered(&strings(&["/usr/bin"]), dir, &strings(&["x"])));
}

#[test]
fn macos_forward_target_skips_own_directory() {
    let probes = vec![
        macos::UnixDirProbe { dir: "/Users/me/.codex/bin".to_string(), codex_is_file: true },
        macos::UnixDirProbe { dir: "/opt/homebrew/bin".to_string(), codex_is_file: true },
    ];
    assert_eq!(
        macos::find_forward_target(
            Some("/Users/me/.codex/bin/codex"),
            Some("/Users/me/.codex/bin"),
            &probes
        ),
        Some("/opt/homebrew/bin/codex".to_string())
    );
    assert_eq!(
        macos::find_forward_target(Some("/opt/homebrew/bin/codex"), None, &probes[1..].to_vec()),
        None
    );
    assert!(macos::launcher_removable(true, Some("/a/x"), "/a/y"));
    assert!(!macos::launcher_removable(true, Some("/a//y"), "/a/y"));
}

#[test]
fn install_run_installs_what_the_plan_plans() {
    let state = RegistrationState {
        codex_app_installed: true,
        context_menu_registered: true,
        cli_registered: false,
        cli_path_registered: false,
    };
    let planned = plan_registration(&state);
    let mut report = InstallReport::default();
    let mut step = InstallStep::LocateApp;
    let mut taken = Vec::new();
    while step != InstallStep::Done {
        let answer = match step {
            InstallStep::LocateApp => state.codex_app_installed,
            InstallStep::PlaceLauncher => false,
            InstallStep::CheckMenu => state.context_menu_registered,
            InstallStep::PlaceShim => !state.cli_registered,
            InstallStep::CheckPath => state.cli_path_registered,
            _ => true,
        };
        match (step, answer) {
            (InstallStep::RegisterMenu, _) => taken.push(RegistrationAction::RegisterContextMenu),
            (InstallStep::PlaceShim, true) => taken.push(RegistrationAction::InstallCliShim),
            (InstallStep::RegisterPath, _) => taken.push(RegistrationAction::RegisterCliPath),
            _ => {}
        }
        step = install_next(Platform::Windows, step, answer, &mut report);
    }
    assert_eq!(taken, planned);
    assert_eq!(report.lines.len(), 4);
}

#[test]
fn uninstall_lines_only_remove_or_skip() {
    for platform in [Platform::Windows, Platform::MacOs] {
        for bits in 0u32..512 {
            let mut report = InstallReport::default();
            let mut step = UninstallStep::RemoveMenu;
            let mut k = 0;
            let mut visited_remove_dir = false;
            while step != UninstallStep::Done {
                if step == UninstallStep::RemoveHelperDir {
                    visited_remove_dir = true;
                }
                let answer = bits & (1 << k) != 0;
                step = uninstall_next(platform, step, answer, &mut report);
                k += 1;
            }
            assert!(report
                .lines
                .iter()
                .all(|line| line.starts_with("removed: ") || line.starts_with("skipped: ")));
            if visited_remove_dir {
                assert_eq!(report.lines.last().unwrap(), "removed: Open with Codex app helper files");
            }
        }
    }
}

#[test]
fn windows_process_path_prepend_is_undone_by_removal() {
    let dir = "C:\\shim";
    let process = "C:\\Windows;C:\\Tools";
    let with_dir = windows::prepend_process_path_value(process, dir);
    assert_eq!(windows::remove_path_entry_from_value(&with_dir, dir), process);
}

#[test]
fn windows_latest_package_is_the_greatest_name() {
    assert_eq!(windows::latest_package(&Vec::new()), None);
    assert_eq!(
        windows::latest_package(&strings(&[
            "OpenAI.Codex_1.2_x64",
            "OpenAI.Codex_1.10_x64",
            "OpenAI.Codex_1.3_x64",
            "OpenAI.Codex_1"
        ])),
        Some(2)
    );
    assert_eq!(windows::latest_package(&strings(&["b", "a", "b"])), Some(2));
}

#[test]
fn windows_forward_candidates_prefer_the_executable() {
    let candidates = windows::forward_candidates("C:\\bin\\");
    assert_eq!(
        candidates,
        vec![
            windows::ForwardTarget::Direct("C:\\bin\\codex.exe".to_string()),
            windows::ForwardTarget::Batch("C:\\bin\\codex.cmd".to_string()),
            windows::ForwardTarget::Batch("C:\\bin\\codex.bat".to_string()),
        ]
    );
}

#[test]
fn shim_started_by_full_path_forwards() {
    assert_eq!(
        parse_command("/Users/me/.codex/bin/Codex.exe", strings(&["--version"])).unwrap(),
        Command::Forward(strings(&["--version"]))
    );
    assert_eq!(
        parse_command("/usr/local/bin/open-with-codex-app", Vec::new()).unwrap(),
        Command::Install
    );
}

#[test]
fn macos_profile_removal_reports_only_changed_profiles() {
    let dir = "/Users/me/.codex/bin";
    let block = macos::profile_path_block(dir);
    assert_eq!(macos::profile_after_block_removal("export A=1\n", dir), None);
    assert_eq!(
        macos::profile_after_block_removal(&format!("export A=1\n{block}\n"), dir),
        Some(String::from("export A=1\n"))
    );
}

#[test]
fn xml_escape_is_read_back_by_replacing_entities() {
    let value = "a&lt;b <tag attr=\"x\" other='y'> &amp; done";
    let escaped = xml_escape(value);
    let back = escaped
        .replace("&apos;", "'")
        .replace("&quot;", "\"")
        .replace("&gt;", ">")
        .replace("&lt;", "<")
        .replace("&amp;", "&");
    assert_eq!(back, value);
    for (i, _) in escaped.match_indices('&') {
        let tail = &escaped[i..];
        assert!(["&amp;", "&lt;", "&gt;", "&quot;", "&apos;"].iter().any(|e| tail.starts_with(e)));
    }
}

#[test]
fn windows_verbatim_paths_are_recognised() {
    assert!(windows::is_verbatim_path("\\\\?\\C:\\Users"));
    assert!(windows::is_verbatim_path("\\\\?\\UNC\\server\\share"));
    assert!(!windows::is_verbatim_path("\\\\server\\share"));
    assert!(!windows::is_verbatim_path("C:\\Users"));
}
