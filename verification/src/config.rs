//! The configuration of a project: the source files in the order in which
//! they are compiled, and the delay between two instructions of a debug run.
use vstd::prelude::*;
use crate::arm7::one_message;
use crate::error::CompileErr;
use crate::labels::sources_view;
use crate::text::texts;

verus! {

/// What a `Config` holds.
pub struct Settings {
    pub files: Seq<Seq<char>>,
    pub delay: u16,
}

impl Settings {
    /// The configuration of a project without a manifest: the one file
    /// `main.s`, and no delay.
    pub open spec fn standard() -> Settings {
        Settings { files: seq!["main.s"@], delay: 0 }
    }
}

/// The configuration of the compiler.
#[derive(Debug)]
pub struct Config {
    files: Vec<String>,
    delay: u16,
}

impl View for Config {
    type V = Settings;

    closed spec fn view(&self) -> Settings {
        Settings { files: texts(self.files@), delay: self.delay }
    }
}

pub open spec fn malformed_manifest_message(reason: Seq<char>) -> Seq<char> {
    "Configuration Error in \"config.json\" "@ + reason
}

pub open spec fn missing_file_message(file_name: Seq<char>, dir_path: Seq<char>) -> Seq<char> {
    "Couldn't find the file \""@ + file_name + "\" in directory: "@ + dir_path
}

/// What reading the manifest of a project gave, by the text of what it
/// holds.
pub open spec fn manifest_view(manifest: Option<Result<(Vec<String>, u16), String>>) -> Option<
    Result<Settings, Seq<char>>,
> {
    match manifest {
        None => None,
        Some(Ok((files, delay))) => Some(Ok(Settings { files: texts(files@), delay })),
        Some(Err(reason)) => Some(Err(reason@)),
    }
}

/// The text of a file, or the error that names the file and the directory
/// in which it was looked for. `read` is what reading the file gave.
pub fn read_dir_file(dir_path: &str, file_name: &String, read: Option<String>) -> (r: Result<
    String,
    Vec<String>,
>)
    ensures
        match read {
            Some(content) => r matches Ok(c) && c@ == content@,
            None => r matches Err(e) && texts(e@) == one_message(
                missing_file_message(file_name@, dir_path@),
            ),
        },
{
    match read {
        Some(content) => Ok(content),
        None => Err(
            CompileErr::message(
                String::from_str("Couldn't find the file \"").concat(file_name.as_str()).concat(
                    "\" in directory: ",
                ).concat(dir_path),
            ),
        ),
    }
}

/// The index of the first file from `i` on that has no text; the number of
/// files if every one has.
pub open spec fn first_missing(contents: Seq<Option<String>>, n: int, i: int) -> int
    decreases n - i,
{
    if i >= n {
        n
    } else if i >= contents.len() || contents[i] is None {
        i
    } else {
        first_missing(contents, n, i + 1)
    }
}

/// Each file with its text.
pub open spec fn paired(files: Seq<Seq<char>>, contents: Seq<Option<String>>) -> Seq<
    (Seq<char>, Seq<char>),
> {
    Seq::new(files.len(), |i: int| (files[i], contents[i]->0@))
}

impl Config {
    /// The configuration of a project. `manifest` is what reading the
    /// manifest gave: nothing if the project has none, else its list of
    /// files and its delay, or the message of the parser that refused it.
    pub fn new(manifest: Option<Result<(Vec<String>, u16), String>>) -> (r: Result<
        Self,
        Vec<String>,
    >)
        ensures
            match manifest_view(manifest) {
                None => r matches Ok(c) && c@ == Settings::standard(),
                Some(Ok(settings)) => r matches Ok(c) && c@ == settings,
                Some(Err(reason)) => r matches Err(e) && texts(e@) == one_message(
                    malformed_manifest_message(reason),
                ),
            },
    {
        match manifest {
            None => {
                let files = vec![String::from_str("main.s")];
                assert(texts(files@) =~= seq!["main.s"@]);
                Ok(Config { files, delay: 0 })
            },
            Some(Ok((files, delay))) => Ok(Config { files, delay }),
            Some(Err(reason)) => Err(
                CompileErr::message(
                    String::from_str("Configuration Error in \"config.json\" ").concat(
                        reason.as_str(),
                    ),
                ),
            ),
        }
    }

    /// The delay between two instructions of a debug run, in milliseconds.
    pub fn get_delay(&self) -> (d: u16)
        ensures
            d == self@.delay,
    {
        self.delay
    }

    /// The names of the source files, in the order in which they are
    /// compiled.
    pub fn files(&self) -> (r: &Vec<String>)
        ensures
            texts(r@) == self@.files,
    {
        &self.files
    }

    /// The name and the text of each file. `contents` holds, for each file
    /// in order, what reading it gave. The first file without a text is an
    /// error.
    pub fn read_contents(&self, dir_path: &str, contents: &Vec<Option<String>>) -> (r: Result<
        Vec<(String, String)>,
        Vec<String>,
    >)
        ensures
            ({
                let missing = first_missing(contents@, self@.files.len() as int, 0);
                if missing < self@.files.len() {
                    r matches Err(e) && texts(e@) == one_message(
                        missing_file_message(self@.files[missing], dir_path@),
                    )
                } else {
                    r matches Ok(v) && sources_view(v@) == paired(self@.files, contents@)
                }
            }),
    {
        let mut out: Vec<(String, String)> = Vec::new();
        let n = self.files.len();
        let ghost all = paired(self@.files, contents@);
        let mut i: usize = 0;
        assert(sources_view(out@) =~= all.take(0));
        while i < n
            invariant
                i <= n,
                n == self.files@.len(),
                n == self@.files.len(),
                all == paired(self@.files, contents@),
                first_missing(contents@, n as int, i as int) == first_missing(contents@, n as int, 0),
                sources_view(out@) == all.take(i as int),
            decreases n - i,
        {
            let read = if i < contents.len() {
                match &contents[i] {
                    Some(content) => Some(content.clone()),
                    None => None,
                }
            } else {
                None
            };
            assert(self@.files[i as int] == self.files@[i as int]@);
            match read_dir_file(dir_path, &self.files[i], read) {
                Err(e) => {
                    return Err(e);
                },
                Ok(content) => {
                    let name = self.files[i].clone();
                    out.push((name, content));
                    assert(sources_view(out@) =~= all.take(i as int).push((name@, content@)));
                    assert(all.take(i + 1) =~= all.take(i as int).push(all[i as int]));
                },
            }
            i += 1;
        }
        assert(all.take(n as int) =~= all);
        Ok(out)
    }
}

} // verus!
