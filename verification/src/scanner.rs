use vstd::prelude::*;
use vstd::string::StringExecFns;
use crate::git_log::{exit_code_value, string_texts};
use crate::models::{RepoInfo, ScanMsg};
use crate::text::{int_text, push_char, push_i64_text, push_str, push_u64_text};

verus! {

/// Where the scanner executable is taken from.
#[derive(Debug, Clone, Copy, PartialEq, Eq, Structural)]
pub enum ExecutableSource {
    /// The configured value itself (absolute, or left to the search path).
    AsGiven,
    /// The configured value joined to the configuration file's directory.
    NextToConfig,
    /// The configured value joined to the directory of the running program.
    NextToProgram,
}

/// Chooses the scanner executable. An absolute value is taken as it is.
/// Otherwise the value joined to the configuration file's directory is taken
/// if that is a file, else the value joined to the program's directory if that
/// is a file, else the value as it is. A candidate is `None` where its
/// directory is unknown, else whether it is a file.
pub fn resolve_executable(
    value_is_absolute: bool,
    next_to_config_is_file: Option<bool>,
    next_to_program_is_file: Option<bool>,
) -> (r: ExecutableSource)
    ensures
        r == (if value_is_absolute {
            ExecutableSource::AsGiven
        } else if next_to_config_is_file == Some(true) {
            ExecutableSource::NextToConfig
        } else if next_to_program_is_file == Some(true) {
            ExecutableSource::NextToProgram
        } else {
            ExecutableSource::AsGiven
        }),
{
    if value_is_absolute {
        return ExecutableSource::AsGiven;
    }
    if let Some(true) = next_to_config_is_file {
        return ExecutableSource::NextToConfig;
    }
    if let Some(true) = next_to_program_is_file {
        return ExecutableSource::NextToProgram;
    }
    ExecutableSource::AsGiven
}

/// The words joined into one text, each preceded by a space.
pub open spec fn spaced_words(ws: Seq<Seq<char>>) -> Seq<char>
    decreases ws.len(),
{
    if ws.len() == 0 {
        seq![]
    } else {
        spaced_words(ws.drop_last()) + seq![' '] + ws.last()
    }
}

/// The scanner's arguments as they are echoed in the log: the path and the
/// output file in double quotes, then the flag for hidden folders, then the
/// extra arguments.
pub open spec fn args_preview_text(
    path: Seq<char>,
    include_hidden: bool,
    extra: Seq<Seq<char>>,
    out: Seq<char>,
) -> Seq<char> {
    "\""@ + path + "\" -o \""@ + out + "\""@ + (if include_hidden {
        " --include-hidden"@
    } else {
        seq![]
    }) + spaced_words(extra)
}

/// Appends each extra argument, preceded by a space.
fn push_spaced_words(s: &mut String, extra: &[String])
    ensures
        final(s)@ == old(s)@ + spaced_words(string_texts(extra@)),
{
    let ghost start = s@;
    let mut i: usize = 0;
    while i < extra.len()
        invariant
            i <= extra@.len(),
            s@ == start + spaced_words(string_texts(extra@.take(i as int))),
        decreases extra.len() - i,
    {
        push_char(s, ' ');
        push_str(s, extra[i].as_str());
        assert(string_texts(extra@.take(i + 1)).drop_last() =~= string_texts(extra@.take(i as int)));
        assert(string_texts(extra@.take(i + 1)).last() == extra@[i as int]@);
        assert(s@ =~= start + spaced_words(string_texts(extra@.take(i + 1))));
        i += 1;
    }
    assert(extra@.take(extra@.len() as int) =~= extra@);
}

/// The scanner's arguments as they are echoed in the log.
pub fn format_args_preview(path: &str, include_hidden: bool, extra: &[String], out: &str) -> (s: String)
    ensures
        s@ == args_preview_text(path@, include_hidden, string_texts(extra@), out@),
{
    let mut s = String::from_str("\"");
    push_str(&mut s, path);
    push_str(&mut s, "\" -o \"");
    push_str(&mut s, out);
    push_str(&mut s, "\"");
    if include_hidden {
        push_str(&mut s, " --include-hidden");
    }
    push_spaced_words(&mut s, extra);
    assert(s@ =~= args_preview_text(path@, include_hidden, string_texts(extra@), out@));
    s
}

/// The log line that announces a scan: the executable, then the preview of its arguments.
pub fn scan_log_line(exe: &str, path: &str, include_hidden: bool, extra: &[String], out: &str) -> (s: String)
    ensures
        s@ == "$ "@ + exe@ + " "@ + args_preview_text(path@, include_hidden, string_texts(extra@), out@),
{
    let mut s = String::from_str("$ ");
    push_str(&mut s, exe);
    push_str(&mut s, " ");
    let preview = format_args_preview(path, include_hidden, extra, out);
    push_str(&mut s, preview.as_str());
    s
}

/// The scanner's arguments: the path, `-o` and the output file, the flag for
/// hidden folders where asked for, then the extra arguments.
pub open spec fn scan_arg_texts(
    path: Seq<char>,
    include_hidden: bool,
    extra: Seq<Seq<char>>,
    out: Seq<char>,
) -> Seq<Seq<char>> {
    seq![path, "-o"@, out] + (if include_hidden {
        seq!["--include-hidden"@]
    } else {
        seq![]
    }) + extra
}

/// The scanner's command line: the path, `-o`, the output file, the flag for
/// hidden folders only where asked for, then every extra argument in its
/// configured order, and nothing else.
pub proof fn lemma_scan_arg_positions(
    path: Seq<char>,
    include_hidden: bool,
    extra: Seq<Seq<char>>,
    out: Seq<char>,
)
    ensures
        ({
            let a = scan_arg_texts(path, include_hidden, extra, out);
            let h: int = if include_hidden {
                4
            } else {
                3
            };
            &&& a.len() == h + extra.len()
            &&& a[0] == path
            &&& a[1] == "-o"@
            &&& a[2] == out
            &&& include_hidden ==> a[3] == "--include-hidden"@
            &&& forall|i: int| 0 <= i < extra.len() ==> #[trigger] a[h + i] == extra[i]
        }),
{
    let a = scan_arg_texts(path, include_hidden, extra, out);
    let h: int = if include_hidden {
        4
    } else {
        3
    };
    assert forall|i: int| 0 <= i < extra.len() implies #[trigger] a[h + i] == extra[i] by {}
}

/// The echoed extra arguments: each is written after a space, in order, so
/// two runs of words echo as the first run followed by the second.
pub proof fn lemma_spaced_words_join(a: Seq<Seq<char>>, b: Seq<Seq<char>>)
    ensures
        spaced_words(a + b) == spaced_words(a) + spaced_words(b),
    decreases b.len(),
{
    if b.len() == 0 {
        assert(a + b =~= a);
        assert(spaced_words(a) + spaced_words(b) =~= spaced_words(a));
    } else {
        assert((a + b).drop_last() =~= a + b.drop_last());
        assert((a + b).last() == b.last());
        lemma_spaced_words_join(a, b.drop_last());
        assert(spaced_words(a) + spaced_words(b.drop_last()) + seq![' '] + b.last() =~= spaced_words(a) + (
        spaced_words(b.drop_last()) + seq![' '] + b.last()));
    }
}

/// One extra argument is echoed as a space followed by the argument.
pub proof fn lemma_spaced_word(w: Seq<char>)
    ensures
        spaced_words(seq![w]) == seq![' '] + w,
{
    let ws = seq![w];
    assert(ws.drop_last() =~= Seq::<Seq<char>>::empty());
    assert(spaced_words(ws.drop_last()).len() == 0);
    assert(spaced_words(ws.drop_last()) + seq![' '] + w =~= seq![' '] + w);
}

/// The arguments the scanner is run with.
pub fn scan_args(path: &str, include_hidden: bool, extra: &[String], out: &str) -> (args: Vec<String>)
    ensures
        string_texts(args@) == scan_arg_texts(path@, include_hidden, string_texts(extra@), out@),
{
    let mut args: Vec<String> = Vec::new();
    args.push(String::from_str(path));
    args.push(String::from_str("-o"));
    args.push(String::from_str(out));
    if include_hidden {
        args.push(String::from_str("--include-hidden"));
    }
    let ghost head = string_texts(args@);
    let mut i: usize = 0;
    while i < extra.len()
        invariant
            i <= extra@.len(),
            string_texts(args@) == head + string_texts(extra@.take(i as int)),
        decreases extra.len() - i,
    {
        let ghost old_args = args@;
        let a = extra[i].clone();
        assert(a@ == extra@[i as int]@);
        args.push(a);
        assert(string_texts(args@) =~= string_texts(old_args).push(extra@[i as int]@));
        assert(string_texts(extra@.take(i + 1)) =~= string_texts(extra@.take(i as int)).push(extra@[i as int]@));
        assert(string_texts(args@) =~= head + string_texts(extra@.take(i + 1)));
        i += 1;
    }
    assert(extra@.take(extra@.len() as int) =~= extra@);
    assert(string_texts(args@) =~= scan_arg_texts(path@, include_hidden, string_texts(extra@), out@));
    args
}

/// The name of the file the scanner writes its result to.
pub fn scan_output_file_name(pid: u32) -> (s: String)
    ensures
        s@ == "gitsearcher-ui-"@ + int_text(pid as int) + ".json"@,
{
    let mut s = String::from_str("gitsearcher-ui-");
    push_u64_text(&mut s, pid as u64);
    push_str(&mut s, ".json");
    s
}

/// Why a scan did not deliver its list of repositories.
pub enum ScanFailure {
    /// The executable could not be started.
    Spawn { exe: String, error: String },
    /// Waiting for the executable failed.
    Wait { error: String },
    /// The executable ended without success.
    Exit { code: Option<i32> },
    /// Its output file could not be read.
    ReadOutput { path: String, error: String },
    /// Its output file is not a valid list of repositories.
    InvalidJson { error: String },
}

/// The message shown for a failed scan.
pub open spec fn failure_text(f: ScanFailure) -> Seq<char> {
    match f {
        ScanFailure::Spawn { exe, error } => "Impossibile avviare l'eseguibile '"@ + exe@ + "': "@ + error@
            + "\nVerifica che il file esista o che sia nel PATH, e controlla il campo 'executable' nel file di config."@,
        ScanFailure::Wait { error } => "Errore esecuzione: "@ + error@,
        ScanFailure::Exit { code } => "L'eseguibile ha restituito codice "@ + int_text(exit_code_value(code)) + "."@,
        ScanFailure::ReadOutput { path, error } => "Impossibile leggere l'output JSON ("@ + path@ + "): "@
            + error@,
        ScanFailure::InvalidJson { error } => "JSON non valido: "@ + error@,
    }
}

impl ScanFailure {
    /// The message shown for this failure.
    pub fn message(&self) -> (s: String)
        ensures
            s@ == failure_text(*self),
    {
        match self {
            ScanFailure::Spawn { exe, error } => {
                let mut s = String::from_str("Impossibile avviare l'eseguibile '");
                push_str(&mut s, exe.as_str());
                push_str(&mut s, "': ");
                push_str(&mut s, error.as_str());
                push_str(
                    &mut s,
                    "\nVerifica che il file esista o che sia nel PATH, e controlla il campo 'executable' nel file di config.",
                );
                s
            },
            ScanFailure::Wait { error } => {
                let mut s = String::from_str("Errore esecuzione: ");
                push_str(&mut s, error.as_str());
                s
            },
            ScanFailure::Exit { code } => {
                let mut s = String::from_str("L'eseguibile ha restituito codice ");
                let n: i64 = match code {
                    Some(c) => *c as i64,
                    None => -1,
                };
                push_i64_text(&mut s, n);
                push_str(&mut s, ".");
                s
            },
            ScanFailure::ReadOutput { path, error } => {
                let mut s = String::from_str("Impossibile leggere l'output JSON (");
                push_str(&mut s, path.as_str());
                push_str(&mut s, "): ");
                push_str(&mut s, error.as_str());
                s
            },
            ScanFailure::InvalidJson { error } => {
                let mut s = String::from_str("JSON non valido: ");
                push_str(&mut s, error.as_str());
                s
            },
        }
    }
}

/// The failure, if any, of a scanner run that has ended: none when it
/// succeeded, else its exit code.
pub fn exit_failure(success: bool, code: Option<i32>) -> (f: Option<ScanFailure>)
    ensures
        f.is_none() <==> success,
        f matches Some(x) ==> (x matches ScanFailure::Exit { code: c } && c == code),
{
    if success {
        None
    } else {
        Some(ScanFailure::Exit { code })
    }
}

/// The message that ends a scan: its repositories, or the message of its failure.
pub fn scan_done(result: Result<Vec<RepoInfo>, ScanFailure>) -> (m: ScanMsg)
    ensures
        match result {
            Ok(list) => m == ScanMsg::Done(Ok(list)),
            Err(f) => m matches ScanMsg::Done(Err(e)) && e@ == failure_text(f),
        },
{
    match result {
        Ok(list) => ScanMsg::Done(Ok(list)),
        Err(f) => ScanMsg::Done(Err(f.message())),
    }
}

} // verus!
