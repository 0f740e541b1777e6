use gitsearcher_ui::app::{App, LOG_LIMIT};
use gitsearcher_ui::config::{config_from_read, home_folder, load_config_outcome, Config, ConfigRead};
use gitsearcher_ui::git_log::{
    git_launch_error, git_log_args, git_log_outcome, parse_commits, parse_line, FIELD_SEP,
};
use gitsearcher_ui::models::{CommitInfo, HistoryMsg, RepoInfo, ScanMsg, SortBy};
use gitsearcher_ui::scanner::{
    exit_failure, format_args_preview, resolve_executable, scan_done, scan_args, scan_log_line, scan_output_file_name,
    ExecutableSource, ScanFailure,
};
use gitsearcher_ui::sort::sort_repos;
use gitsearcher_ui::text::{push_i64_text, push_u64_text, to_lowercase, trim};
use gitsearcher_ui::utils::{format_time, moment_accepted, sort_header_label, EARLIEST_SECOND, LATEST_SECOND};

fn line(fields: &[&str]) -> String {
    fields.join(&FIELD_SEP.to_string())
}

fn repo(path: &str, branch: Option<&str>, t: Option<(i64, u32)>) -> RepoInfo {
    RepoInfo {
        path: path.to_string(),
        branch: branch.map(|b| b.to_string()),
        last_activity_utc: t,
        source: None,
    }
}

fn paths(v: &[RepoInfo]) -> Vec<String> {
    v.iter().map(|r| r.path.clone()).collect()
}

fn app() -> App {
    App::new(Config::default(), None, "/home/u".to_string())
}

#[test]
fn parse_line_reads_five_fields() {
    let c = parse_line(&line(&["abcdef123", "abc", "Ada", "2024-01-02 03:04", "Fix it"])).unwrap();
    assert_eq!(c.full_hash, "abcdef123");
    assert_eq!(c.short_hash, "abc");
    assert_eq!(c.author, "Ada");
    assert_eq!(c.date, "2024-01-02 03:04");
    assert_eq!(c.subject, "Fix it");
}

#[test]
fn parse_line_without_subject_gives_empty_subject() {
    let c = parse_line(&line(&["h", "s", "a", "d"])).unwrap();
    assert_eq!(c.subject, "");
}

#[test]
fn parse_line_with_three_fields_gives_none() {
    assert!(parse_line(&line(&["h", "s", "a"])).is_none());
    assert!(parse_line("no separators here").is_none());
    assert!(parse_line("").is_none());
}

#[test]
fn parse_line_ignores_fields_after_the_fifth() {
    let c = parse_line(&line(&["h", "s", "a", "d", "subj", "extra"])).unwrap();
    assert_eq!(c.subject, "subj");
}

#[test]
fn parse_line_keeps_empty_fields() {
    let c = parse_line(&line(&["", "", "", "", ""])).unwrap();
    assert_eq!(c.full_hash, "");
    assert_eq!(c.subject, "");
}

#[test]
fn git_log_outcome_lists_commits_skipping_blank_and_bad_lines() {
    let out = format!(
        "{}\r\n\n   \n{}\nbroken line\n{}",
        line(&["h1", "s1", "a1", "d1", "one"]),
        line(&["h2", "s2", "a2", "d2", "two"]),
        line(&["h3", "s3", "a3", "d3", "three"])
    );
    let r: Vec<CommitInfo> = git_log_outcome(true, Some(0), out.as_bytes(), b"").unwrap();
    let subjects: Vec<&str> = r.iter().map(|c| c.subject.as_str()).collect();
    assert_eq!(subjects, vec!["one", "two", "three"]);
}

#[test]
fn git_log_outcome_keeps_carriage_return_of_unterminated_last_line() {
    let out = format!("{}\r", line(&["h", "s", "a", "d", "subj"]));
    let r = git_log_outcome(true, Some(0), out.as_bytes(), b"").unwrap();
    assert_eq!(r[0].subject, "subj\r");
}

#[test]
fn git_log_outcome_decodes_invalid_utf8_with_replacement() {
    let mut out = line(&["h", "s", "a", "d", "x"]).into_bytes();
    out.push(0xff);
    let r = git_log_outcome(true, Some(0), &out, b"").unwrap();
    assert_eq!(r[0].subject, "x\u{fffd}");
}

#[test]
fn git_log_outcome_failure_gives_trimmed_stderr() {
    let r = git_log_outcome(false, Some(128), b"", b"  fatal: not a git repository\n");
    assert_eq!(r.unwrap_err(), "fatal: not a git repository");
}

#[test]
fn git_log_outcome_failure_without_stderr_gives_code() {
    let r = git_log_outcome(false, Some(128), b"", b" \n");
    assert_eq!(r.unwrap_err(), "git ha restituito codice 128.");
    let r = git_log_outcome(false, None, b"", b"");
    assert_eq!(r.unwrap_err(), "git ha restituito codice -1.");
}

#[test]
fn empty_history_output_gives_no_commits() {
    assert!(parse_commits("").is_empty());
    assert!(parse_commits("\n\n").is_empty());
}

#[test]
fn git_launch_error_message() {
    assert_eq!(
        git_launch_error("not found"),
        "Impossibile eseguire 'git': not found\nVerifica che git sia installato e presente nel PATH."
    );
}

#[test]
fn git_log_args_are_exact() {
    let args = git_log_args("C:/repo");
    assert_eq!(
        args,
        vec![
            "-C".to_string(),
            "C:/repo".to_string(),
            "log".to_string(),
            "-n100".to_string(),
            "--pretty=format:%H\u{1f}%h\u{1f}%an\u{1f}%ad\u{1f}%s".to_string(),
            "--date=format-local:%Y-%m-%d %H:%M".to_string(),
        ]
    );
}

#[test]
fn what_the_format_writes_parse_line_reads() {
    let written = line(&["full", "short", "Grace Hopper", "2020-02-02 20:20", "subject: a | b"]);
    let c = parse_line(&written).unwrap();
    let back = line(&[&c.full_hash, &c.short_hash, &c.author, &c.date, &c.subject]);
    assert_eq!(back, written);
}

#[test]
fn format_args_preview_quotes_path_and_output() {
    let extra = vec!["--depth".to_string(), "3".to_string()];
    assert_eq!(
        format_args_preview("C:/src", true, &extra, "/tmp/out.json"),
        "\"C:/src\" -o \"/tmp/out.json\" --include-hidden --depth 3"
    );
    assert_eq!(format_args_preview("p", false, &[], "o"), "\"p\" -o \"o\"");
}

#[test]
fn scan_log_line_echoes_command() {
    assert_eq!(scan_log_line("gs.exe", "p", false, &[], "o"), "$ gs.exe \"p\" -o \"o\"");
}

#[test]
fn scan_args_in_order() {
    let extra = vec!["-v".to_string()];
    assert_eq!(scan_args("p", true, &extra, "o"), vec!["p", "-o", "o", "--include-hidden", "-v"]);
    assert_eq!(scan_args("p", false, &[], "o"), vec!["p", "-o", "o"]);
}

#[test]
fn scan_output_file_name_holds_pid() {
    assert_eq!(scan_output_file_name(4242), "gitsearcher-ui-4242.json");
    assert_eq!(scan_output_file_name(0), "gitsearcher-ui-0.json");
}

#[test]
fn scan_failure_messages() {
    let spawn = ScanFailure::Spawn { exe: "gs.exe".to_string(), error: "no such file".to_string() };
    assert_eq!(
        spawn.message(),
        "Impossibile avviare l'eseguibile 'gs.exe': no such file\nVerifica che il file esista o che sia nel PATH, e controlla il campo 'executable' nel file di config."
    );
    assert_eq!(ScanFailure::Wait { error: "e".to_string() }.message(), "Errore esecuzione: e");
    assert_eq!(ScanFailure::Exit { code: Some(2) }.message(), "L'eseguibile ha restituito codice 2.");
    assert_eq!(ScanFailure::Exit { code: None }.message(), "L'eseguibile ha restituito codice -1.");
    assert_eq!(
        ScanFailure::ReadOutput { path: "/tmp/x.json".to_string(), error: "gone".to_string() }.message(),
        "Impossibile leggere l'output JSON (/tmp/x.json): gone"
    );
    assert_eq!(
        ScanFailure::InvalidJson { error: "EOF".to_string() }.message(),
        "JSON non valido: EOF"
    );
}

#[test]
fn resolve_executable_prefers_absolute_then_config_then_program() {
    assert_eq!(resolve_executable(true, Some(true), Some(true)), ExecutableSource::AsGiven);
    assert_eq!(resolve_executable(false, Some(true), Some(true)), ExecutableSource::NextToConfig);
    assert_eq!(resolve_executable(false, Some(false), Some(true)), ExecutableSource::NextToProgram);
    assert_eq!(resolve_executable(false, None, Some(true)), ExecutableSource::NextToProgram);
    assert_eq!(resolve_executable(false, None, None), ExecutableSource::AsGiven);
    assert_eq!(resolve_executable(false, Some(false), Some(false)), ExecutableSource::AsGiven);
}

#[test]
fn config_default_values() {
    let c = Config::default();
    assert_eq!(c.executable, "GitSearcher.exe");
    assert!(c.extra_args.is_empty());
    assert_eq!(c.default_path, "");
    assert!(!c.include_hidden);
}

#[test]
fn config_from_read_outcomes() {
    let mut parsed = Config::default();
    parsed.executable = "other.exe".to_string();
    let (c, e) = config_from_read("/x/gitsearcher-ui.toml", ConfigRead::Parsed(parsed));
    assert_eq!(c.executable, "other.exe");
    assert!(e.is_none());
    let (c, e) = config_from_read("/x/c.toml", ConfigRead::ParseFailed("bad key".to_string()));
    assert_eq!(c.executable, "GitSearcher.exe");
    assert_eq!(e.unwrap(), "Errore parsing /x/c.toml: bad key");
    let (c, e) = config_from_read("/x/c.toml", ConfigRead::ReadFailed("denied".to_string()));
    assert_eq!(c.executable, "GitSearcher.exe");
    assert_eq!(e.unwrap(), "Errore lettura /x/c.toml: denied");
}

#[test]
fn sort_header_labels() {
    assert_eq!(sort_header_label("Branch", false, true), "Branch");
    assert_eq!(sort_header_label("Branch", true, true), "Branch \u{25b2}");
    assert_eq!(sort_header_label("Branch", true, false), "Branch \u{25bc}");
}

#[test]
fn format_time_of_nothing_is_a_dash() {
    assert_eq!(format_time(None), "-");
    let s = format_time(Some((1_700_000_000, 0)));
    assert_eq!(s.len(), 16);
    assert_eq!(&s[4..5], "-");
}

#[test]
fn text_helpers() {
    assert_eq!(trim("\u{3000} a b \t\n"), "a b");
    assert_eq!(trim("   "), "");
    assert_eq!(to_lowercase("ÀBC"), "àbc");
    let mut s = String::new();
    push_i64_text(&mut s, i64::MIN);
    assert_eq!(s, i64::MIN.to_string());
    let mut s = String::new();
    push_u64_text(&mut s, u64::MAX);
    assert_eq!(s, u64::MAX.to_string());
}

#[test]
fn new_app_starts_from_config_or_home() {
    let a = app();
    assert_eq!(a.path_input, "/home/u");
    assert_eq!(a.sort_by, SortBy::LastActivity);
    assert!(!a.sort_asc);
    let mut c = Config::default();
    c.default_path = "D:/code".to_string();
    c.include_hidden = true;
    let a = App::new(c, Some("err".to_string()), "/home/u".to_string());
    assert_eq!(a.path_input, "D:/code");
    assert!(a.include_hidden);
    assert_eq!(a.config_error.as_deref(), Some("err"));
}

#[test]
fn start_scan_refuses_empty_and_missing_paths() {
    let mut a = app();
    a.path_input = "   ".to_string();
    assert!(a.start_scan(true).is_none());
    assert_eq!(a.last_error.as_deref(), Some("Inserisci un percorso da scansionare."));
    a.path_input = "  /nope ".to_string();
    assert!(a.start_scan(false).is_none());
    assert_eq!(a.last_error.as_deref(), Some("Il percorso non esiste: /nope"));
    assert!(!a.scanning);
}

#[test]
fn start_scan_resets_and_returns_trimmed_path() {
    let mut a = app();
    a.path_input = " /src ".to_string();
    a.logs.push("old".to_string());
    a.repos.push(repo("x", None, None));
    a.last_error = Some("e".to_string());
    assert_eq!(a.start_scan(true).as_deref(), Some("/src"));
    assert!(a.scanning);
    assert!(a.logs.is_empty() && a.repos.is_empty() && a.last_error.is_none());
    assert!(a.start_scan(true).is_none());
}

#[test]
fn scan_log_keeps_a_bounded_tail() {
    let mut a = app();
    for i in 0..(LOG_LIMIT + 10) {
        assert!(!a.handle_scan_msg(ScanMsg::Log(i.to_string())));
    }
    assert_eq!(a.logs.len(), LOG_LIMIT + 1);
    assert_eq!(a.logs.last().unwrap(), &(LOG_LIMIT + 9).to_string());
    assert_eq!(a.logs[0], "9");
}

#[test]
fn scan_done_adds_and_sorts_by_recent_activity() {
    let mut a = app();
    a.scanning = true;
    a.repos.push(repo("a", None, Some((10, 0))));
    let list = vec![repo("b", None, Some((30, 0))), repo("c", None, None), repo("d", None, Some((10, 5)))];
    assert!(a.handle_scan_msg(ScanMsg::Done(Ok(list))));
    assert!(!a.scanning);
    assert_eq!(paths(&a.repos), vec!["b", "d", "a", "c"]);
}

#[test]
fn scan_done_with_error_keeps_it() {
    let mut a = app();
    a.scanning = true;
    assert!(a.handle_scan_msg(ScanMsg::Done(Err("boom".to_string()))));
    assert!(!a.scanning);
    assert_eq!(a.last_error.as_deref(), Some("boom"));
}

#[test]
fn toggle_sort_switches_column_and_direction() {
    let mut a = app();
    a.repos = vec![repo("B", Some("z"), None), repo("a", Some("y"), None), repo("c", None, None)];
    a.toggle_sort(SortBy::Path);
    assert!(a.sort_asc);
    assert_eq!(paths(&a.repos), vec!["a", "B", "c"]);
    a.toggle_sort(SortBy::Path);
    assert!(!a.sort_asc);
    assert_eq!(paths(&a.repos), vec!["c", "B", "a"]);
    a.toggle_sort(SortBy::Branch);
    assert!(a.sort_asc);
    assert_eq!(paths(&a.repos), vec!["c", "a", "B"]);
    a.toggle_sort(SortBy::LastActivity);
    assert!(!a.sort_asc);
}

#[test]
fn sorting_keeps_equal_keys_in_order() {
    let mut v = vec![
        repo("1", Some("m"), None),
        repo("2", Some("a"), None),
        repo("3", Some("m"), None),
        repo("4", None, None),
        repo("5", Some("a"), None),
    ];
    sort_repos(&mut v, SortBy::Branch, true);
    assert_eq!(paths(&v), vec!["4", "2", "5", "1", "3"]);
    sort_repos(&mut v, SortBy::Branch, false);
    assert_eq!(paths(&v), vec!["1", "3", "2", "5", "4"]);
}

#[test]
fn sorting_a_sorted_list_changes_nothing() {
    let mut v = vec![repo("b", None, Some((5, 1))), repo("a", None, Some((5, 1))), repo("c", None, Some((1, 0)))];
    sort_repos(&mut v, SortBy::LastActivity, false);
    let once = paths(&v);
    sort_repos(&mut v, SortBy::LastActivity, false);
    assert_eq!(paths(&v), once);
    assert_eq!(once, vec!["b", "a", "c"]);
}

#[test]
fn toggling_the_same_column_twice_restores_direction() {
    let mut a = app();
    a.toggle_sort(SortBy::LastActivity);
    assert!(a.sort_asc);
    a.toggle_sort(SortBy::LastActivity);
    assert!(!a.sort_asc);
    assert_eq!(a.sort_by, SortBy::LastActivity);
}

#[test]
fn filter_matches_path_or_branch_ignoring_case_and_spaces() {
    let mut a = app();
    a.repos = vec![
        repo("C:/Work/Alpha", Some("main"), None),
        repo("C:/work/beta", Some("Feature-X"), None),
        repo("C:/other", None, None),
    ];
    a.filter = "  WORK ".to_string();
    assert_eq!(a.filtered_indices(), vec![0, 1]);
    a.filter = "feature".to_string();
    assert_eq!(a.filtered_indices(), vec![1]);
    a.filter = "   ".to_string();
    assert_eq!(a.filtered_indices(), vec![0, 1, 2]);
    a.filter = "zzz".to_string();
    assert!(a.filtered_indices().is_empty());
}

#[test]
fn history_opens_loads_and_closes() {
    let mut a = app();
    let r = repo("/r/proj", Some("dev"), None);
    assert_eq!(a.open_history(&r), "/r/proj");
    assert!(a.history_open && a.history_loading);
    assert_eq!(a.history_branch.as_deref(), Some("dev"));
    let c = parse_line(&line(&["h", "s", "a", "d", "x"])).unwrap();
    a.handle_history_msg(HistoryMsg::Done(Ok(vec![c])));
    assert!(!a.history_loading);
    assert_eq!(a.history_commits.len(), 1);
    a.open_history(&r);
    a.handle_history_msg(HistoryMsg::Done(Err("bad".to_string())));
    assert_eq!(a.history_error.as_deref(), Some("bad"));
    assert!(a.history_commits.is_empty());
    a.open_history(&r);
    a.set_history_open(false);
    assert!(!a.history_open && !a.history_loading);
}

#[test]
fn history_title_names_the_folder() {
    let mut a = app();
    assert_eq!(a.history_title(None), "Storia");
    a.open_history(&repo("/r/proj", None, None));
    assert_eq!(a.history_title(Some("proj".to_string())), "Storia \u{2014} proj");
    assert_eq!(a.history_title(None), "Storia \u{2014} /r/proj");
}

#[test]
fn exit_failure_only_for_unsuccessful_runs() {
    assert!(exit_failure(true, Some(0)).is_none());
    let f = exit_failure(false, Some(3)).unwrap();
    assert_eq!(f.message(), "L'eseguibile ha restituito codice 3.");
}

#[test]
fn scan_done_carries_list_or_message() {
    match scan_done(Ok(vec![repo("a", None, None)])) {
        ScanMsg::Done(Ok(list)) => assert_eq!(paths(&list), vec!["a"]),
        _ => panic!("expected the list"),
    }
    match scan_done(Err(ScanFailure::InvalidJson { error: "EOF".to_string() })) {
        ScanMsg::Done(Err(e)) => assert_eq!(e, "JSON non valido: EOF"),
        _ => panic!("expected the message"),
    }
}

#[test]
fn format_time_refused_moment_is_a_dash() {
    assert_eq!(format_time(Some((i64::MAX, 0))), "-");
    assert!(format_time(Some((0, 0))).len() >= 16);
}

#[test]
fn chrono_range_matches_moment_accepted() {
    for &(secs, nanos) in &[
        (0i64, 0u32),
        (LATEST_SECOND, 0),
        (LATEST_SECOND + 1, 0),
        (EARLIEST_SECOND, 0),
        (EARLIEST_SECOND - 1, 0),
        (59, 1_000_000_000),
        (58, 1_000_000_000),
        (-1, 1_500_000_000),
        (-61, 1_999_999_999),
        (59, 2_000_000_000),
        (i64::MIN, 0),
        (i64::MAX, 0),
    ] {
        assert_eq!(
            moment_accepted(secs, nanos),
            chrono::DateTime::from_timestamp(secs, nanos).is_some(),
            "{secs} {nanos}"
        );
    }
}

#[test]
fn format_time_at_the_range_ends() {
    assert!(format_time(Some((LATEST_SECOND, 0))).len() >= 16);
    assert!(format_time(Some((EARLIEST_SECOND, 0))).len() >= 16);
    assert_eq!(format_time(Some((LATEST_SECOND + 1, 0))), "-");
    assert_eq!(format_time(Some((58, 1_000_000_000))), "-");
}

#[test]
fn format_time_shows_minute_in_local_time() {
    let t = chrono::DateTime::from_timestamp(1_700_000_000, 0).unwrap();
    let expected = t.with_timezone(&chrono::Local).format("%Y-%m-%d %H:%M").to_string();
    assert_eq!(format_time(Some((1_700_000_000, 0))), expected);
}

#[test]
fn load_config_outcome_cases() {
    let (c, p, e) = load_config_outcome::<u8>(None);
    assert_eq!(c.executable, "GitSearcher.exe");
    assert!(p.is_none() && e.is_none());
    let (c, p, e) = load_config_outcome(Some((7u8, "/c.toml".to_string(), ConfigRead::ReadFailed("x".to_string()))));
    assert_eq!(c.executable, "GitSearcher.exe");
    assert_eq!(p, Some(7));
    assert_eq!(e.unwrap(), "Errore lettura /c.toml: x");
    let mut cfg = Config::default();
    cfg.include_hidden = true;
    let (c, p, e) = load_config_outcome(Some((1u8, "/c.toml".to_string(), ConfigRead::Parsed(cfg))));
    assert!(c.include_hidden && p == Some(1) && e.is_none());
}

#[test]
fn home_folder_prefers_userprofile_then_home() {
    assert_eq!(home_folder(Some("C:/Users/a".to_string()), Some("/h".to_string())), "C:/Users/a");
    assert_eq!(home_folder(None, Some("/h".to_string())), "/h");
    assert_eq!(home_folder(None, None), ".");
}
