//! Plans: the file and process effects an installer asks the binary to
//! perform. The engine decides *what* to do; the binary carries the
//! actions out and reports what happened.

use vstd::prelude::*;
use crate::text::strings_view;

verus! {

/// One environment variable handed to a command.
#[derive(Debug)]
pub struct EnvVar {
    pub key: String,
    pub value: String,
}

/// The mathematical value of an `EnvVar`.
#[verifier::ext_equal]
pub struct EnvVarV {
    pub key: Seq<char>,
    pub value: Seq<char>,
}

impl View for EnvVar {
    type V = EnvVarV;

    open spec fn view(&self) -> EnvVarV {
        EnvVarV { key: self.key@, value: self.value@ }
    }
}

/// An external command to run, with its arguments and environment.
#[derive(Debug)]
pub struct CmdSpec {
    pub program: String,
    pub args: Vec<String>,
    pub env: Vec<EnvVar>,
}

/// The mathematical value of a `CmdSpec`.
#[verifier::ext_equal]
pub struct CmdSpecV {
    pub program: Seq<char>,
    pub args: Seq<Seq<char>>,
    pub env: Seq<EnvVarV>,
}

impl View for CmdSpec {
    type V = CmdSpecV;

    open spec fn view(&self) -> CmdSpecV {
        CmdSpecV {
            program: self.program@,
            args: self.args@.map_values(|a: String| a@),
            env: self.env@.map_values(|e: EnvVar| e@),
        }
    }
}

/// One effect to perform, in order. Conditional variants test the
/// filesystem at execution time, so a re-run skips work already done.
#[derive(Debug)]
pub enum Action {
    /// Create the directory and its parents if it does not exist.
    EnsureDir(String),
    /// Fetch the bytes at `url` and write them to `dest`.
    Download { url: String, dest: String },
    /// Unpack the archive at `archive` (zip, tar.gz or bare gzip) to `dest`.
    Decompress { archive: String, dest: String },
    /// Move a file.
    Rename { from: String, to: String },
    /// Create a symbolic link at `link` pointing to `original`.
    Symlink { original: String, link: String },
    /// Create the link only if `original` exists.
    SymlinkIfExists { original: String, link: String },
    /// Set the executable bits.
    MakeExecutable(String),
    /// Write `content` to `path`, replacing it.
    WriteScript { path: String, content: String },
    /// Delete the file if it exists.
    RemoveFileIfExists(String),
    /// Delete the directory tree if it exists.
    RemoveDirIfExists(String),
    /// Delete the directory tree.
    RemoveDirAll(String),
    /// Run the command and fail on a non-zero status.
    Run(CmdSpec),
    /// Run the command only if `path` does not exist.
    RunIfMissing { path: String, cmd: CmdSpec },
}

/// The mathematical value of an `Action`.
#[verifier::ext_equal]
pub enum ActionV {
    EnsureDir(Seq<char>),
    Download { url: Seq<char>, dest: Seq<char> },
    Decompress { archive: Seq<char>, dest: Seq<char> },
    Rename { from: Seq<char>, to: Seq<char> },
    Symlink { original: Seq<char>, link: Seq<char> },
    SymlinkIfExists { original: Seq<char>, link: Seq<char> },
    MakeExecutable(Seq<char>),
    WriteScript { path: Seq<char>, content: Seq<char> },
    RemoveFileIfExists(Seq<char>),
    RemoveDirIfExists(Seq<char>),
    RemoveDirAll(Seq<char>),
    Run(CmdSpecV),
    RunIfMissing { path: Seq<char>, cmd: CmdSpecV },
}

impl View for Action {
    type V = ActionV;

    open spec fn view(&self) -> ActionV {
        match self {
            Action::EnsureDir(d) => ActionV::EnsureDir(d@),
            Action::Download { url, dest } => ActionV::Download { url: url@, dest: dest@ },
            Action::Decompress { archive, dest } => ActionV::Decompress {
                archive: archive@,
                dest: dest@,
            },
            Action::Rename { from, to } => ActionV::Rename { from: from@, to: to@ },
            Action::Symlink { original, link } => ActionV::Symlink {
                original: original@,
                link: link@,
            },
            Action::SymlinkIfExists { original, link } => ActionV::SymlinkIfExists {
                original: original@,
                link: link@,
            },
            Action::MakeExecutable(p) => ActionV::MakeExecutable(p@),
            Action::WriteScript { path, content } => ActionV::WriteScript {
                path: path@,
                content: content@,
            },
            Action::RemoveFileIfExists(p) => ActionV::RemoveFileIfExists(p@),
            Action::RemoveDirIfExists(p) => ActionV::RemoveDirIfExists(p@),
            Action::RemoveDirAll(p) => ActionV::RemoveDirAll(p@),
            Action::Run(c) => ActionV::Run(c@),
            Action::RunIfMissing { path, cmd } => ActionV::RunIfMissing { path: path@, cmd: cmd@ },
        }
    }
}

/// The views of a list of actions, in order.
pub open spec fn actions_view(a: Seq<Action>) -> Seq<ActionV> {
    a.map_values(|x: Action| x@)
}

/// The lines joined with single newlines.
pub open spec fn join_nl(ls: Seq<Seq<char>>) -> Seq<char>
    decreases ls.len(),
{
    if ls.len() == 0 {
        Seq::empty()
    } else if ls.len() == 1 {
        ls[0]
    } else {
        join_nl(ls.drop_last()) + seq!['\n'] + ls.last()
    }
}

/// How an executable wrapper script is written.
#[derive(Debug)]
pub struct ScriptOptions {
    /// Make the script executable. Defaults to true.
    pub make_exec: bool,
    /// Add a shebang on the first line. Defaults to true.
    pub shebang: bool,
    /// The program named in the shebang. Defaults to bash.
    pub prog: String,
    /// Create a link to the script from this location.
    pub link: Option<String>,
}

/// The script text: the shebang line, if asked for, then the given lines,
/// joined with newlines.
pub open spec fn script_content_spec(
    shebang: bool,
    prog: Seq<char>,
    lines: Seq<Seq<char>>,
) -> Seq<char> {
    if shebang {
        join_nl(seq!["#!/usr/bin/env "@ + prog].add(lines))
    } else {
        join_nl(lines)
    }
}

impl ScriptOptions {
    pub fn new() -> (r: Self)
        ensures
            r.make_exec,
            r.shebang,
            r.prog@ == "bash"@,
            r.link is None,
    {
        ScriptOptions { make_exec: true, shebang: true, prog: "bash".to_owned(), link: None }
    }

    /// The full text of the script for the given lines.
    pub fn script_content(&self, lines: &Vec<String>) -> (r: String)
        ensures
            r@ == script_content_spec(
                self.shebang,
                self.prog@,
                strings_view(lines@),
            ),
    {
        proof {
            reveal_strlit("#!/usr/bin/env ");
        }
        let ghost lv = strings_view(lines@);
        let mut all: Vec<String> = Vec::new();
        if self.shebang {
            let mut first = "#!/usr/bin/env ".to_owned();
            first.append(self.prog.as_str());
            all.push(first);
        }
        let mut i: usize = 0;
        while i < lines.len()
            invariant
                i <= lines.len(),
                lv == strings_view(lines@),
                strings_view(all@) =~= (if self.shebang {
                    seq!["#!/usr/bin/env "@ + self.prog@]
                } else {
                    Seq::<Seq<char>>::empty()
                }).add(lv.subrange(0, i as int)),
            decreases lines.len() - i,
        {
            let ghost prev = all@;
            all.push(lines[i].clone());
            proof {
                let prefix = if self.shebang {
                    seq!["#!/usr/bin/env "@ + self.prog@]
                } else {
                    Seq::<Seq<char>>::empty()
                };
                assert(lv[i as int] == lines@[i as int]@);
                assert(all@ == prev.push(all@.last()));
                assert(all@.last()@ == lv[i as int]);
                assert(strings_view(prev).len() == prev.len());
                assert(prev.len() == prefix.len() + i);
                assert forall|k: int| 0 <= k < all@.len() implies strings_view(all@)[k]
                    == #[trigger] prefix.add(lv.subrange(0, i + 1))[k] by {
                    assert(strings_view(all@)[k] == all@[k]@);
                    if k < prefix.len() {
                        assert(all@[k] == prev[k]);
                        assert(strings_view(prev)[k] == prev[k]@);
                        assert(strings_view(prev)[k] == prefix.add(lv.subrange(0, i as int))[k]);
                        assert(prefix.add(lv.subrange(0, i as int))[k] == prefix[k]);
                        assert(prefix.add(lv.subrange(0, i + 1))[k] == prefix[k]);
                    } else if k < prev.len() {
                        assert(all@[k] == prev[k]);
                        assert(strings_view(prev)[k] == prev[k]@);
                        assert(strings_view(prev)[k] == prefix.add(lv.subrange(0, i as int))[k]);
                        assert(prefix.add(lv.subrange(0, i as int))[k] == lv.subrange(
                            0,
                            i as int,
                        )[k - prefix.len()]);
                        assert(lv.subrange(0, i as int)[k - prefix.len()] == lv[k - prefix.len()]);
                        assert(prefix.add(lv.subrange(0, i + 1))[k] == lv.subrange(0, i + 1)[k
                            - prefix.len()]);
                        assert(lv.subrange(0, i + 1)[k - prefix.len()] == lv[k - prefix.len()]);
                    } else {
                        assert(k == prev.len());
                        assert(all@[k] == all@.last());
                        assert(prefix.add(lv.subrange(0, i + 1))[k] == lv.subrange(0, i + 1)[k
                            - prefix.len()]);
                        assert(lv.subrange(0, i + 1)[k - prefix.len()] == lv[i as int]);
                    }
                }
                assert(strings_view(all@) =~= prefix.add(lv.subrange(0, i + 1)));
            }
            i = i + 1;
        }
        proof {
            assert(lv.subrange(0, lines@.len() as int) =~= lv);
        }
        join_lines(&all)
    }

    /// The effects that write the script: write the content, set the
    /// executable bits if asked, and place the link if one is configured.
    pub fn create_actions(&self, path: &str, lines: &Vec<String>) -> (r: Vec<Action>)
        ensures
            ({
                let content = script_content_spec(
                    self.shebang,
                    self.prog@,
                    strings_view(lines@),
                );
                let base = seq![ActionV::WriteScript { path: path@, content }];
                let with_exec = if self.make_exec {
                    base.push(ActionV::MakeExecutable(path@))
                } else {
                    base
                };
                actions_view(r@) == match self.link {
                    Some(l) => with_exec.push(ActionV::RemoveFileIfExists(l@)).push(
                        ActionV::Symlink { original: path@, link: l@ },
                    ),
                    None => with_exec,
                }
            }),
    {
        let content = self.script_content(lines);
        let mut r: Vec<Action> = Vec::new();
        r.push(Action::WriteScript { path: path.to_owned(), content });
        if self.make_exec {
            r.push(Action::MakeExecutable(path.to_owned()));
        }
        match &self.link {
            Some(l) => {
                r.push(Action::RemoveFileIfExists(l.clone()));
                r.push(Action::Symlink { original: path.to_owned(), link: l.clone() });
            },
            None => {},
        }
        proof {
            let content2 = script_content_spec(
                self.shebang,
                self.prog@,
                strings_view(lines@),
            );
            let base = seq![ActionV::WriteScript { path: path@, content: content2 }];
            let with_exec = if self.make_exec {
                base.push(ActionV::MakeExecutable(path@))
            } else {
                base
            };
            match &self.link {
                Some(l) => {
                    assert(actions_view(r@) =~= with_exec.push(
                        ActionV::RemoveFileIfExists(l@),
                    ).push(ActionV::Symlink { original: path@, link: l@ }));
                },
                None => {
                    assert(actions_view(r@) =~= with_exec);
                },
            }
        }
        r
    }
}

/// Joins strings with single newlines.
pub fn join_lines(lines: &Vec<String>) -> (r: String)
    ensures
        r@ == join_nl(strings_view(lines@)),
{
    proof {
        reveal_strlit("\n");
    }
    let ghost lv = strings_view(lines@);
    let mut r = String::new();
    let mut i: usize = 0;
    while i < lines.len()
        invariant
            i <= lines.len(),
            lv == strings_view(lines@),
            r@ == join_nl(lv.subrange(0, i as int)),
        decreases lines.len() - i,
    {
        if i > 0 {
            proof {
                reveal_strlit("\n");
            }
            r.append("\n");
        }
        r.append(lines[i].as_str());
        proof {
            reveal_strlit("\n");
            let pre = lv.subrange(0, i as int);
            let post = lv.subrange(0, i + 1);
            assert(post.drop_last() =~= pre);
            assert(lv[i as int] == lines@[i as int]@);
            assert(post.last() == lv[i as int]);
            assert("\n"@ =~= seq!['\n']);
            if i == 0 {
                assert(post.len() == 1);
                assert(join_nl(post) == post[0]);
                assert(r@ =~= join_nl(post));
            } else {
                assert(post.len() > 1);
                assert(join_nl(post) == join_nl(pre) + seq!['\n'] + post.last());
                assert(r@ =~= join_nl(post));
            }
        }
        i = i + 1;
    }
    proof {
        assert(lv.subrange(0, lines@.len() as int) =~= lv);
    }
    r
}

} // verus!
