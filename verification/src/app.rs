use vstd::prelude::*;
use vstd::string::StringExecFns;
use crate::config::Config;
use crate::models::{CommitInfo, HistoryMsg, RepoInfo, ScanMsg, SortBy};
use crate::sort::{sort_repos, stably_sorted};
use crate::text::{
    chars_of, clone_option_string, contains_text, has_infix, lowercase_of, option_text, push_str,
    to_lowercase, trim, trim_text,
};

verus! {

/// Lines of scan log kept: once there are more than this many, the oldest
/// line goes before each new one is added.
pub const LOG_LIMIT: usize = 500;

/// The state of the program's window, apart from the channels and the drawing.
pub struct App {
    pub config: Config,
    pub config_error: Option<String>,
    pub path_input: String,
    pub include_hidden: bool,
    pub filter: String,
    pub sort_by: SortBy,
    pub sort_asc: bool,
    pub repos: Vec<RepoInfo>,
    pub logs: Vec<String>,
    pub scanning: bool,
    pub last_error: Option<String>,
    pub history_open: bool,
    pub history_repo: Option<String>,
    pub history_branch: Option<String>,
    pub history_commits: Vec<CommitInfo>,
    pub history_loading: bool,
    pub history_error: Option<String>,
}

/// The two states agree on the settings and the user's inputs.
pub open spec fn same_inputs(a: App, b: App) -> bool {
    &&& a.config == b.config
    &&& a.config_error == b.config_error
    &&& a.path_input == b.path_input
    &&& a.include_hidden == b.include_hidden
    &&& a.filter == b.filter
    &&& a.sort_by == b.sort_by
    &&& a.sort_asc == b.sort_asc
}

/// The two states agree on the scan: its results, its log and its progress.
pub open spec fn same_scan(a: App, b: App) -> bool {
    &&& a.repos == b.repos
    &&& a.logs == b.logs
    &&& a.scanning == b.scanning
    &&& a.last_error == b.last_error
}

/// The two states agree on the history window.
pub open spec fn same_history(a: App, b: App) -> bool {
    &&& a.history_open == b.history_open
    &&& a.history_repo == b.history_repo
    &&& a.history_branch == b.history_branch
    &&& a.history_commits == b.history_commits
    &&& a.history_loading == b.history_loading
    &&& a.history_error == b.history_error
}

/// The log after a new line: the oldest line goes first when there are more
/// than `LOG_LIMIT`.
pub open spec fn logs_after(logs: Seq<String>, line: String) -> Seq<String> {
    if logs.len() > LOG_LIMIT {
        logs.drop_first().push(line)
    } else {
        logs.push(line)
    }
}

/// The direction a column is first sorted in: ascending for path and branch,
/// descending for last activity.
pub open spec fn first_direction(col: SortBy) -> bool {
    col == SortBy::Path || col == SortBy::Branch
}

/// The column and direction after a click on a column header: the same
/// column turns the direction round; another column starts in its first direction.
pub open spec fn toggled(by: SortBy, asc: bool, col: SortBy) -> (SortBy, bool) {
    if by == col {
        (by, !asc)
    } else {
        (col, first_direction(col))
    }
}

/// The text the repositories are filtered by: the filter without surrounding
/// white space, in lower case.
pub open spec fn filter_key(filter: Seq<char>) -> Seq<char> {
    lowercase_of(trim_text(filter))
}

/// A repository passes the filter when the filter is empty, or when its path
/// or its branch, in lower case, holds the filter.
pub open spec fn passes_filter(r: RepoInfo, key: Seq<char>) -> bool {
    ||| key.len() == 0
    ||| has_infix(lowercase_of(r.path@), key)
    ||| has_infix(lowercase_of(option_text(r.branch)), key)
}

/// The positions, in increasing order, of the first `n` repositories that
/// pass the filter.
pub open spec fn passing_positions(repos: Seq<RepoInfo>, key: Seq<char>, n: int) -> Seq<usize>
    decreases n,
{
    if n <= 0 {
        seq![]
    } else {
        let prev = passing_positions(repos, key, n - 1);
        if passes_filter(repos[n - 1], key) {
            prev.push((n - 1) as usize)
        } else {
            prev
        }
    }
}

/// The title of the history window: the name of the repository's folder (or
/// its whole path where it has none) after a fixed word, or the word alone
/// when no repository is chosen.
pub open spec fn history_title_text(repo: Option<String>, file_name: Option<String>) -> Seq<char> {
    match repo {
        Some(p) => "Storia \u{2014} "@ + (match file_name {
            Some(f) => f@,
            None => p@,
        }),
        None => "Storia"@,
    }
}

/// The scan log never grows beyond `LOG_LIMIT + 1` lines, and a new line is
/// always its last.
pub proof fn lemma_log_stays_bounded(logs: Seq<String>, line: String)
    requires
        logs.len() <= LOG_LIMIT + 1,
    ensures
        logs_after(logs, line).len() <= LOG_LIMIT + 1,
        logs_after(logs, line).last() == line,
{
}

/// Clicking the same column header twice brings back the direction it had
/// before, on that column; on a new column, the second click gives the
/// opposite of the column's first direction.
pub proof fn lemma_toggle_twice(by: SortBy, asc: bool, col: SortBy)
    ensures
        toggled(toggled(by, asc, col).0, toggled(by, asc, col).1, col) == (col, if by == col {
            asc
        } else {
            !first_direction(col)
        }),
{
}

/// The filter keeps exactly the repositories that pass it, in table order.
pub proof fn lemma_filter_keeps_passing_in_order(repos: Seq<RepoInfo>, key: Seq<char>, n: int)
    requires
        0 <= n <= repos.len(),
        repos.len() <= usize::MAX,
    ensures
        forall|a: int, b: int| 0 <= a < b < passing_positions(repos, key, n).len() ==>
            #[trigger] passing_positions(repos, key, n)[a] < #[trigger] passing_positions(repos, key, n)[b],
        forall|k: int| 0 <= k < passing_positions(repos, key, n).len() ==>
            #[trigger] passing_positions(repos, key, n)[k] < n,
        forall|i: int| 0 <= i < n ==> (passes_filter(repos[i], key) <==> passing_positions(repos, key, n).contains(
            i as usize,
        )),
    decreases n,
{
    if n > 0 {
        lemma_filter_keeps_passing_in_order(repos, key, n - 1);
        let prev = passing_positions(repos, key, n - 1);
        let cur = passing_positions(repos, key, n);
        if passes_filter(repos[n - 1], key) {
            assert(cur == prev.push((n - 1) as usize));
            assert forall|a: int, b: int| 0 <= a < b < cur.len() implies #[trigger] cur[a] < #[trigger] cur[b] by {
                if b < prev.len() {
                    assert(cur[a] == prev[a] && cur[b] == prev[b]);
                } else {
                    assert(cur[a] == prev[a]);
                    assert(prev[a] < n - 1);
                }
            }
            assert forall|k: int| 0 <= k < cur.len() implies #[trigger] cur[k] < n by {
                if k < prev.len() {
                    assert(cur[k] == prev[k]);
                }
            }
        }
        assert forall|i: int| 0 <= i < n implies (passes_filter(repos[i], key) <==> cur.contains(
            i as usize,
        )) by {
            if passes_filter(repos[n - 1], key) {
                assert(cur == prev.push((n - 1) as usize));
                if i < n - 1 {
                    if cur.contains(i as usize) {
                        let k = choose|k: int| 0 <= k < cur.len() && cur[k] == i as usize;
                        if k < prev.len() {
                            assert(prev.contains(i as usize));
                        }
                    }
                    if prev.contains(i as usize) {
                        let k = choose|k: int| 0 <= k < prev.len() && prev[k] == i as usize;
                        assert(cur[k] == i as usize);
                    }
                } else {
                    assert(cur[cur.len() - 1] == i as usize);
                }
            } else {
                if i == n - 1 {
                    if cur.contains(i as usize) {
                        let k = choose|k: int| 0 <= k < cur.len() && cur[k] == i as usize;
                        assert(cur[k] < n - 1);
                    }
                }
            }
        }
    }
}

/// A repository passes the filter when its lower-case path or its lower-case
/// branch holds the filter anywhere: at its start, in its middle or at its end.
pub proof fn lemma_filter_finds_text_anywhere(r: RepoInfo, key: Seq<char>, before: Seq<char>, after: Seq<char>)
    requires
        lowercase_of(r.path@) == before + key + after || lowercase_of(option_text(r.branch)) == before + key
            + after,
    ensures
        passes_filter(r, key),
{
    let whole = before + key + after;
    assert(whole.subrange(before.len() as int, (before.len() + key.len()) as int) =~= key);
}

/// A repository fails a non-empty filter when neither its lower-case path nor
/// its lower-case branch holds the filter at any position.
pub proof fn lemma_filter_rejects_without_text(r: RepoInfo, key: Seq<char>)
    requires
        key.len() > 0,
        forall|k: int| 0 <= k && k + key.len() <= lowercase_of(r.path@).len() ==>
            #[trigger] lowercase_of(r.path@).subrange(k, k + key.len()) != key,
        forall|k: int| 0 <= k && k + key.len() <= lowercase_of(option_text(r.branch)).len() ==>
            #[trigger] lowercase_of(option_text(r.branch)).subrange(k, k + key.len()) != key,
    ensures
        !passes_filter(r, key),
{
}

/// With an empty filter every repository is kept.
pub proof fn lemma_empty_filter_keeps_all(repos: Seq<RepoInfo>, n: int)
    requires
        0 <= n <= repos.len(),
        repos.len() <= usize::MAX,
    ensures
        passing_positions(repos, seq![], n) == Seq::new(n as nat, |i: int| i as usize),
    decreases n,
{
    if n > 0 {
        lemma_empty_filter_keeps_all(repos, n - 1);
        assert(Seq::new((n - 1) as nat, |i: int| i as usize).push((n - 1) as usize) =~= Seq::new(
            n as nat,
            |i: int| i as usize,
        ));
    } else {
        assert(passing_positions(repos, seq![], n) =~= Seq::new(n as nat, |i: int| i as usize));
    }
}

/// What `start_scan` does: nothing while a scan runs; with an empty path, or
/// one that is no folder, it keeps a message; otherwise it resets the scan's
/// state and gives the folder to scan.
pub open spec fn scan_start_step(a: App, b: App, path_is_dir: bool, r: Option<String>) -> bool {
    &&& same_inputs(a, b)
    &&& same_history(a, b)
    &&& a.scanning ==> r.is_none() && same_scan(a, b)
    &&& !a.scanning && trim_text(a.path_input@).len() == 0 ==> {
            &&& r.is_none()
            &&& b.last_error matches Some(m) && m@ == "Inserisci un percorso da scansionare."@
            &&& b.repos == a.repos
            &&& b.logs == a.logs
            &&& b.scanning == a.scanning
        }
    &&& !a.scanning && trim_text(a.path_input@).len() > 0 && !path_is_dir ==> {
            &&& r.is_none()
            &&& b.last_error matches Some(m) && m@ == "Il percorso non esiste: "@
                + trim_text(a.path_input@)
            &&& b.repos == a.repos
            &&& b.logs == a.logs
            &&& b.scanning == a.scanning
        }
    &&& !a.scanning && trim_text(a.path_input@).len() > 0 && path_is_dir ==> {
            &&& r matches Some(p) && p@ == trim_text(a.path_input@)
            &&& b.scanning
            &&& b.repos@.len() == 0
            &&& b.logs@.len() == 0
            &&& b.last_error.is_none()
        }
}

/// What `apply_sort` does: the repositories are sorted stably by the current
/// column and direction; nothing else changes.
pub open spec fn sort_step(a: App, b: App) -> bool {
    &&& same_inputs(a, b)
    &&& same_history(a, b)
    &&& b.logs == a.logs
    &&& b.scanning == a.scanning
    &&& b.last_error == a.last_error
    &&& stably_sorted(a.sort_by, a.sort_asc, a.repos@, b.repos@)
}

/// What `toggle_sort` does: the column and direction change as `toggled`
/// says and the repositories are sorted stably by them.
pub open spec fn toggle_step(a: App, b: App, col: SortBy) -> bool {
    &&& (b.sort_by, b.sort_asc) == toggled(a.sort_by, a.sort_asc, col)
    &&& b.config == a.config
    &&& b.config_error == a.config_error
    &&& b.path_input == a.path_input
    &&& b.include_hidden == a.include_hidden
    &&& b.filter == a.filter
    &&& same_history(a, b)
    &&& b.logs == a.logs
    &&& b.scanning == a.scanning
    &&& b.last_error == a.last_error
    &&& stably_sorted(b.sort_by, b.sort_asc, a.repos@, b.repos@)
}

/// What `handle_scan_msg` does with one message of a running scan.
pub open spec fn scan_msg_step(a: App, b: App, msg: ScanMsg, done: bool) -> bool {
    &&& same_inputs(a, b)
    &&& same_history(a, b)
    &&& match msg {
            ScanMsg::Log(line) => {
                &&& !done
                &&& b.logs@ == logs_after(a.logs@, line)
                &&& b.repos == a.repos
                &&& b.scanning == a.scanning
                &&& b.last_error == a.last_error
            },
            ScanMsg::Done(Ok(list)) => {
                &&& done
                &&& !b.scanning
                &&& b.logs == a.logs
                &&& b.last_error == a.last_error
                &&& stably_sorted(
                    a.sort_by,
                    a.sort_asc,
                    a.repos@ + list@,
                    b.repos@,
                )
            },
            ScanMsg::Done(Err(e)) => {
                &&& done
                &&& !b.scanning
                &&& b.logs == a.logs
                &&& b.repos == a.repos
                &&& b.last_error == Some(e)
            },
        }
}

/// What `open_history` does: the window opens for the repository, empty and loading.
pub open spec fn history_open_step(a: App, b: App, repo: RepoInfo, path: String) -> bool {
    &&& same_inputs(a, b)
    &&& same_scan(a, b)
    &&& path == repo.path
    &&& b.history_open
    &&& b.history_repo == Some(repo.path)
    &&& b.history_branch == repo.branch
    &&& b.history_commits@.len() == 0
    &&& b.history_error.is_none()
    &&& b.history_loading
}

/// What `handle_history_msg` does: loading ends with the commits or the error.
pub open spec fn history_msg_step(a: App, b: App, msg: HistoryMsg) -> bool {
    &&& same_inputs(a, b)
    &&& same_scan(a, b)
    &&& b.history_open == a.history_open
    &&& b.history_repo == a.history_repo
    &&& b.history_branch == a.history_branch
    &&& !b.history_loading
    &&& match msg {
            HistoryMsg::Done(Ok(commits)) => {
                &&& b.history_commits == commits
                &&& b.history_error == a.history_error
            },
            HistoryMsg::Done(Err(e)) => {
                &&& b.history_commits == a.history_commits
                &&& b.history_error == Some(e)
            },
        }
}

/// What `set_history_open` does: closing the window stops the loading.
pub open spec fn history_window_step(a: App, b: App, open: bool) -> bool {
    &&& same_inputs(a, b)
    &&& same_scan(a, b)
    &&& b.history_open == open
    &&& b.history_loading == (open && a.history_loading)
    &&& b.history_repo == a.history_repo
    &&& b.history_branch == a.history_branch
    &&& b.history_commits == a.history_commits
    &&& b.history_error == a.history_error
}

/// The state `App::new` builds.
pub open spec fn new_app_state(app: App, config: Config, config_error: Option<String>, home: String) -> bool {
    &&& app.config == config
    &&& app.config_error == config_error
    &&& app.path_input@ == (if config.default_path@.len() > 0 {
            config.default_path@
        } else {
            home@
        })
    &&& app.include_hidden == config.include_hidden
    &&& app.filter@ == Seq::<char>::empty()
    &&& app.sort_by == SortBy::LastActivity
    &&& !app.sort_asc
    &&& app.repos@.len() == 0
    &&& app.logs@.len() == 0
    &&& !app.scanning
    &&& app.last_error.is_none()
    &&& !app.history_open
    &&& app.history_repo.is_none()
    &&& app.history_branch.is_none()
    &&& app.history_commits@.len() == 0
    &&& !app.history_loading
    &&& app.history_error.is_none()
}

/// The conditions that hold between frames of the window: a scan is running
/// exactly while its messages are awaited (`scan_pending`), the history is
/// loading exactly while its message is awaited (`history_pending`), it loads
/// only while its window is open, and the log holds at most `LOG_LIMIT + 1` lines.
pub open spec fn frame_invariant(a: App, scan_pending: bool, history_pending: bool) -> bool {
    &&& a.scanning == scan_pending
    &&& a.history_loading == history_pending
    &&& a.history_loading ==> a.history_open
    &&& a.logs@.len() <= LOG_LIMIT + 1
}

/// The window starts with nothing awaited.
pub proof fn lemma_new_app_frame(app: App, config: Config, config_error: Option<String>, home: String)
    requires
        new_app_state(app, config, config_error, home),
    ensures
        frame_invariant(app, false, false),
{
}

/// Starting a scan keeps the frame conditions, a scan's messages being awaited
/// from the moment a folder to scan is returned. At most one scan is in
/// flight: a folder is returned only when none runs, and while one runs its
/// state is left untouched.
pub proof fn lemma_start_scan_frame(
    a: App,
    b: App,
    path_is_dir: bool,
    r: Option<String>,
    scan_pending: bool,
    history_pending: bool,
)
    requires
        frame_invariant(a, scan_pending, history_pending),
        scan_start_step(a, b, path_is_dir, r),
    ensures
        frame_invariant(b, scan_pending || r is Some, history_pending),
        r is Some ==> !scan_pending,
        scan_pending ==> r is None && same_scan(a, b),
{
}

/// A scan message keeps the frame conditions; the scan's messages stop being
/// awaited once one ends the scan.
pub proof fn lemma_scan_msg_frame(
    a: App,
    b: App,
    msg: ScanMsg,
    done: bool,
    scan_pending: bool,
    history_pending: bool,
)
    requires
        frame_invariant(a, scan_pending, history_pending),
        scan_msg_step(a, b, msg, done),
    ensures
        frame_invariant(b, scan_pending && !done, history_pending),
{
    match msg {
        ScanMsg::Log(line) => {
            lemma_log_stays_bounded(a.logs@, line);
        },
        ScanMsg::Done(_) => {},
    }
}

/// Sorting again (a click on a column header) keeps the frame conditions.
pub proof fn lemma_toggle_frame(a: App, b: App, col: SortBy, scan_pending: bool, history_pending: bool)
    requires
        frame_invariant(a, scan_pending, history_pending),
        toggle_step(a, b, col),
    ensures
        frame_invariant(b, scan_pending, history_pending),
{
}

/// Editing the inputs (path, filter, hidden-folders box) keeps the frame conditions.
pub proof fn lemma_input_edit_frame(a: App, b: App, scan_pending: bool, history_pending: bool)
    requires
        frame_invariant(a, scan_pending, history_pending),
        same_scan(a, b),
        same_history(a, b),
    ensures
        frame_invariant(b, scan_pending, history_pending),
{
}

/// Opening the history keeps the frame conditions, its message now awaited.
pub proof fn lemma_open_history_frame(
    a: App,
    b: App,
    repo: RepoInfo,
    path: String,
    scan_pending: bool,
    history_pending: bool,
)
    requires
        frame_invariant(a, scan_pending, history_pending),
        history_open_step(a, b, repo, path),
    ensures
        frame_invariant(b, scan_pending, true),
{
}

/// The history's message keeps the frame conditions, nothing more awaited for it.
pub proof fn lemma_history_msg_frame(
    a: App,
    b: App,
    msg: HistoryMsg,
    scan_pending: bool,
    history_pending: bool,
)
    requires
        frame_invariant(a, scan_pending, history_pending),
        history_msg_step(a, b, msg),
    ensures
        frame_invariant(b, scan_pending, false),
{
}

/// Showing or closing the history window keeps the frame conditions; closing
/// it stops awaiting its message.
pub proof fn lemma_history_window_frame(
    a: App,
    b: App,
    open: bool,
    scan_pending: bool,
    history_pending: bool,
)
    requires
        frame_invariant(a, scan_pending, history_pending),
        history_window_step(a, b, open),
    ensures
        frame_invariant(b, scan_pending, history_pending && open),
{
}

impl App {
    /// The state at start: the configured folder (or the home folder where none
    /// is configured) to scan, nothing found, no history shown, sorted by last
    /// activity, most recent first.
    pub fn new(config: Config, config_error: Option<String>, home: String) -> (app: App)
        ensures
            new_app_state(app, config, config_error, home),
    {
        let initial_path = if config.default_path.as_str().is_empty() {
            home
        } else {
            config.default_path.clone()
        };
        let include_hidden = config.include_hidden;
        App {
            config,
            config_error,
            path_input: initial_path,
            include_hidden,
            filter: String::new(),
            sort_by: SortBy::LastActivity,
            sort_asc: false,
            repos: Vec::new(),
            logs: Vec::new(),
            scanning: false,
            last_error: None,
            history_open: false,
            history_repo: None,
            history_branch: None,
            history_commits: Vec::new(),
            history_loading: false,
            history_error: None,
        }
    }

    /// The folder a scan would look at: the path input without surrounding white space.
    pub fn scan_path(&self) -> (p: String)
        ensures
            p@ == trim_text(self.path_input@),
    {
        trim(self.path_input.as_str())
    }

    /// Starts a scan of the folder given by `scan_path`, where `path_is_dir`
    /// tells whether that folder exists. Nothing changes while a scan runs.
    /// An empty path, or one that is no folder, is refused with a message.
    /// Otherwise the scan's state is reset and the folder to scan is returned.
    pub fn start_scan(&mut self, path_is_dir: bool) -> (r: Option<String>)
        ensures
            scan_start_step(*old(self), *final(self), path_is_dir, r),
    {
        if self.scanning {
            return None;
        }
        let path = self.scan_path();
        if path.as_str().is_empty() {
            self.last_error = Some(String::from_str("Inserisci un percorso da scansionare."));
            return None;
        }
        if !path_is_dir {
            let mut m = String::from_str("Il percorso non esiste: ");
            push_str(&mut m, path.as_str());
            self.last_error = Some(m);
            return None;
        }
        self.scanning = true;
        self.logs.clear();
        self.repos.clear();
        self.last_error = None;
        Some(path)
    }

    /// Orders the repositories by the current column and direction.
    pub fn apply_sort(&mut self)
        ensures
            sort_step(*old(self), *final(self)),
    {
        sort_repos(&mut self.repos, self.sort_by, self.sort_asc);
    }

    /// Handles a click on a column header: see `toggled`; then sorts again.
    pub fn toggle_sort(&mut self, col: SortBy)
        ensures
            toggle_step(*old(self), *final(self), col),
    {
        if self.sort_by == col {
            self.sort_asc = !self.sort_asc;
        } else {
            self.sort_by = col;
            self.sort_asc = match col {
                SortBy::Path | SortBy::Branch => true,
                SortBy::LastActivity => false,
            };
        }
        self.apply_sort();
    }

    /// Takes one message of a running scan. A log line is added to the log
    /// (see `logs_after`). The end of the scan stops it: its repositories are
    /// added and everything is sorted again, or its error is kept. Returns
    /// whether the message ended the scan.
    pub fn handle_scan_msg(&mut self, msg: ScanMsg) -> (done: bool)
        ensures
            scan_msg_step(*old(self), *final(self), msg, done),
    {
        match msg {
            ScanMsg::Log(line) => {
                if self.logs.len() > LOG_LIMIT {
                    self.logs.remove(0);
                }
                self.logs.push(line);
                false
            },
            ScanMsg::Done(result) => {
                self.scanning = false;
                match result {
                    Ok(list) => {
                        let mut list = list;
                        self.repos.append(&mut list);
                        self.apply_sort();
                    },
                    Err(e) => {
                        self.last_error = Some(e);
                    },
                }
                true
            },
        }
    }

    /// Opens the history window for a repository: its commits are to be
    /// loaded, and the path to load them from is returned.
    pub fn open_history(&mut self, repo: &RepoInfo) -> (path: String)
        ensures
            history_open_step(*old(self), *final(self), *repo, path),
    {
        self.history_open = true;
        self.history_repo = Some(repo.path.clone());
        self.history_branch = clone_option_string(&repo.branch);
        self.history_commits.clear();
        self.history_error = None;
        self.history_loading = true;
        repo.path.clone()
    }

    /// Takes the message that ends a history load: its commits are shown, or its error.
    pub fn handle_history_msg(&mut self, msg: HistoryMsg)
        ensures
            history_msg_step(*old(self), *final(self), msg),
    {
        match msg {
            HistoryMsg::Done(result) => {
                self.history_loading = false;
                match result {
                    Ok(commits) => self.history_commits = commits,
                    Err(e) => self.history_error = Some(e),
                }
            },
        }
    }

    /// Records whether the history window is still open; closing it stops
    /// waiting for its load.
    pub fn set_history_open(&mut self, open: bool)
        ensures
            history_window_step(*old(self), *final(self), open),
    {
        self.history_open = open;
        if !open {
            self.history_loading = false;
        }
    }

    /// The title of the history window, where `file_name` is the name of the
    /// chosen repository's folder, if its path has one.
    pub fn history_title(&self, file_name: Option<String>) -> (t: String)
        ensures
            t@ == history_title_text(self.history_repo, file_name),
    {
        match &self.history_repo {
            Some(p) => {
                let mut t = String::from_str("Storia \u{2014} ");
                match file_name {
                    Some(f) => push_str(&mut t, f.as_str()),
                    None => push_str(&mut t, p.as_str()),
                }
                t
            },
            None => String::from_str("Storia"),
        }
    }

    /// The positions of the repositories that pass the filter, in order.
    pub fn filtered_indices(&self) -> (r: Vec<usize>)
        ensures
            r@ == passing_positions(self.repos@, filter_key(self.filter@), self.repos@.len() as int),
    {
        let trimmed = trim(self.filter.as_str());
        let lower = to_lowercase(trimmed.as_str());
        let key = chars_of(lower.as_str());
        let ghost k = filter_key(self.filter@);
        let mut r: Vec<usize> = Vec::new();
        let mut i: usize = 0;
        while i < self.repos.len()
            invariant
                i <= self.repos@.len(),
                key@ == k,
                r@ == passing_positions(self.repos@, k, i as int),
            decreases self.repos.len() - i,
        {
            let repo = &self.repos[i];
            let pass = if key.len() == 0 {
                true
            } else {
                let path_lower = to_lowercase(repo.path.as_str());
                let path_chars = chars_of(path_lower.as_str());
                if contains_text(path_chars.as_slice(), key.as_slice()) {
                    true
                } else {
                    let branch_lower = match &repo.branch {
                        Some(b) => to_lowercase(b.as_str()),
                        None => {
                            proof {
                                reveal_strlit("");
                            }
                            assert(""@ =~= option_text(repo.branch));
                            to_lowercase("")
                        },
                    };
                    let branch_chars = chars_of(branch_lower.as_str());
                    contains_text(branch_chars.as_slice(), key.as_slice())
                }
            };
            assert(pass == passes_filter(self.repos@[i as int], k));
            if pass {
                r.push(i);
            }
            i += 1;
        }
        r
    }
}

} // verus!
